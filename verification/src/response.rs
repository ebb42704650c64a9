//! The record of a sent request's outcome and its canonical textual
//! rendering: status line, elapsed-time line, the raw header lines in
//! received order, a blank separator, then the body.

use vstd::prelude::*;

verus! {

/// The digit character of `d`, for `0 <= d <= 9`.
pub open spec fn digit_char(d: int) -> char {
    if d == 0 {
        '0'
    } else if d == 1 {
        '1'
    } else if d == 2 {
        '2'
    } else if d == 3 {
        '3'
    } else if d == 4 {
        '4'
    } else if d == 5 {
        '5'
    } else if d == 6 {
        '6'
    } else if d == 7 {
        '7'
    } else if d == 8 {
        '8'
    } else {
        '9'
    }
}

/// The digits of `n` in base ten, most significant first; empty for zero.
pub open spec fn dec_digits(n: int) -> Seq<char>
    decreases n,
{
    if n <= 0 {
        Seq::empty()
    } else {
        dec_digits(n / 10).push(digit_char(n % 10))
    }
}

/// The decimal rendering of `n`: its digits, or "0" for zero.
pub open spec fn dec_str(n: int) -> Seq<char> {
    if n == 0 {
        seq!['0']
    } else {
        dec_digits(n)
    }
}

fn digit_str(d: u128) -> (r: &'static str)
    requires
        d <= 9,
    ensures
        r@ =~= seq![digit_char(d as int)],
{
    proof {
        reveal_strlit("0");
        reveal_strlit("1");
        reveal_strlit("2");
        reveal_strlit("3");
        reveal_strlit("4");
        reveal_strlit("5");
        reveal_strlit("6");
        reveal_strlit("7");
        reveal_strlit("8");
        reveal_strlit("9");
    }
    if d == 0 {
        "0"
    } else if d == 1 {
        "1"
    } else if d == 2 {
        "2"
    } else if d == 3 {
        "3"
    } else if d == 4 {
        "4"
    } else if d == 5 {
        "5"
    } else if d == 6 {
        "6"
    } else if d == 7 {
        "7"
    } else if d == 8 {
        "8"
    } else {
        "9"
    }
}

fn dec_digits_exec(n: u128) -> (r: String)
    ensures
        r@ == dec_digits(n as int),
    decreases n,
{
    if n == 0 {
        String::new()
    } else {
        let mut s = dec_digits_exec(n / 10);
        s.append(digit_str(n % 10));
        proof {
            assert(s@ =~= dec_digits(n as int));
        }
        s
    }
}

/// Renders `n` in decimal.
pub fn u128_to_dec(n: u128) -> (r: String)
    ensures
        r@ == dec_str(n as int),
{
    if n == 0 {
        proof {
            reveal_strlit("0");
        }
        let s = String::from_str("0");
        proof {
            assert(s@ =~= dec_str(0));
        }
        s
    } else {
        dec_digits_exec(n)
    }
}

/// The result of one completed send.
pub struct ResponseMessage {
    pub status: u16,
    pub time_in_ms: u128,
    pub body: String,
    pub headers: Vec<String>,
}

/// The mathematical content of a response record.
pub struct ResponseView {
    pub status: u16,
    pub time_in_ms: u128,
    pub body: Seq<char>,
    pub headers: Seq<Seq<char>>,
}

impl View for ResponseMessage {
    type V = ResponseView;

    open spec fn view(&self) -> ResponseView {
        ResponseView {
            status: self.status,
            time_in_ms: self.time_in_ms,
            body: self.body@,
            headers: self.headers@.map_values(|h: String| h@),
        }
    }
}

/// The header lines, each closed by a newline, in received order.
pub open spec fn header_lines(hs: Seq<Seq<char>>) -> Seq<char>
    decreases hs.len(),
{
    if hs.len() == 0 {
        Seq::empty()
    } else {
        header_lines(hs.drop_last()) + hs.last() + seq!['\n']
    }
}

/// The canonical rendering: the status line, the elapsed-time line, the
/// header lines in received order, a blank separator line, then the body.
pub open spec fn render_spec(v: ResponseView) -> Seq<char> {
    "STATUS CODE: "@ + dec_str(v.status as int) + seq!['\n'] + "took: "@ + dec_str(
        v.time_in_ms as int,
    ) + "ms"@ + seq!['\n'] + header_lines(v.headers) + seq!['\n'] + v.body + seq!['\n']
}

impl ResponseMessage {
    /// The canonical textual form of the record.
    pub fn render(&self) -> (r: String)
        ensures
            r@ == render_spec(self@),
    {
        proof {
            reveal_strlit("\n");
        }
        let mut s = String::from_str("STATUS CODE: ");
        let status_text = u128_to_dec(self.status as u128);
        s.append(status_text.as_str());
        s.append("\n");
        s.append("took: ");
        let time_text = u128_to_dec(self.time_in_ms);
        s.append(time_text.as_str());
        s.append("ms");
        s.append("\n");
        proof {
            assert("\n"@ =~= seq!['\n']);
        }
        let n = self.headers.len();
        let mut i: usize = 0;
        let ghost prefix = s@;
        while i < n
            invariant
                i <= n,
                n == self.headers@.len(),
                s@ == prefix + header_lines(
                    self.headers@.map_values(|h: String| h@).take(i as int),
                ),
            decreases n - i,
        {
            proof {
                reveal_strlit("\n");
                assert("\n"@ =~= seq!['\n']);
                let hv = self.headers@.map_values(|h: String| h@);
                assert(hv.take(i as int + 1).drop_last() =~= hv.take(i as int));
                assert(hv.take(i as int + 1).last() == self.headers@[i as int]@);
            }
            s.append(self.headers[i].as_str());
            s.append("\n");
            proof {
                assert(s@ =~= prefix + header_lines(
                    self.headers@.map_values(|h: String| h@).take(i as int + 1),
                ));
            }
            i = i + 1;
        }
        s.append("\n");
        s.append(self.body.as_str());
        s.append("\n");
        proof {
            let hv = self.headers@.map_values(|h: String| h@);
            assert(hv.take(n as int) =~= hv);
            assert(s@ =~= render_spec(self@));
        }
        s
    }
}

} // verus!
