use vstd::prelude::*;

use crate::record::str_is;

verus! {

/// A calendar day of the years 0 to 9999.
#[derive(Clone, Copy, Debug, PartialEq, Eq, Structural)]
pub struct Date {
    pub year: i32,
    pub month: u32,
    pub day: u32,
}

pub open spec fn is_leap(y: int) -> bool {
    (y % 4 == 0 && y % 100 != 0) || y % 400 == 0
}

pub open spec fn days_in_month(y: int, m: int) -> int {
    if m == 2 {
        if is_leap(y) {
            29
        } else {
            28
        }
    } else if m == 4 || m == 6 || m == 9 || m == 11 {
        30
    } else {
        31
    }
}

pub open spec fn valid_date(y: int, m: int, d: int) -> bool {
    0 <= y <= 9999 && 1 <= m <= 12 && 1 <= d <= days_in_month(y, m)
}

/// The decimal digit `d` as text.
pub open spec fn digit(d: int) -> Seq<char> {
    "0123456789"@.subrange(d, d + 1)
}

pub open spec fn two_digits(n: int) -> Seq<char> {
    digit(n / 10) + digit(n % 10)
}

pub open spec fn four_digits(n: int) -> Seq<char> {
    digit(n / 1000) + digit((n / 100) % 10) + digit((n / 10) % 10) + digit(n % 10)
}

/// `YYYY-MM-DD.txt`, the name of the archive of a day.
pub open spec fn archive_name(y: int, m: int, d: int) -> Seq<char> {
    four_digits(y) + "-"@ + two_digits(m) + "-"@ + two_digits(d) + ".txt"@
}

impl Date {
    pub open spec fn wf(self) -> bool {
        valid_date(self.year as int, self.month as int, self.day as int)
    }

    /// The day `year-month-day`, when it exists in the years 0 to 9999.
    pub fn new(year: i32, month: u32, day: u32) -> (r: Option<Date>)
        ensures
            r is Some <==> valid_date(year as int, month as int, day as int),
            r is Some ==> r->Some_0 == (Date { year, month, day }),
    {
        if year < 0 || year > 9999 || month < 1 || month > 12 || day < 1 {
            return None;
        }
        let leap = (year % 4 == 0 && year % 100 != 0) || year % 400 == 0;
        let last: u32 = if month == 2 {
            if leap {
                29
            } else {
                28
            }
        } else if month == 4 || month == 6 || month == 9 || month == 11 {
            30
        } else {
            31
        };
        if day > last {
            None
        } else {
            Some(Date { year, month, day })
        }
    }

    /// The archive file name of this day, `YYYY-MM-DD.txt`.
    pub fn archive_file_name(&self) -> (r: String)
        requires
            self.wf(),
        ensures
            r@ == archive_name(self.year as int, self.month as int, self.day as int),
    {
        let y = self.year as u32;
        let mut out = String::new();
        push_digit(&mut out, y / 1000);
        push_digit(&mut out, (y / 100) % 10);
        push_digit(&mut out, (y / 10) % 10);
        push_digit(&mut out, y % 10);
        out.append("-");
        push_digit(&mut out, self.month / 10);
        push_digit(&mut out, self.month % 10);
        out.append("-");
        push_digit(&mut out, self.day / 10);
        push_digit(&mut out, self.day % 10);
        out.append(".txt");
        proof {
            assert(out@ =~= archive_name(self.year as int, self.month as int, self.day as int));
        }
        out
    }
}

fn push_digit(out: &mut String, d: u32)
    requires
        d < 10,
    ensures
        final(out)@ == old(out)@ + digit(d as int),
{
    proof {
        reveal_strlit("0123456789");
    }
    out.append("0123456789".substring_char(d as usize, d as usize + 1));
}

/// A reply to the overwrite question.
#[derive(Clone, Copy, Debug, PartialEq, Eq, Structural)]
pub enum Confirmation {
    Yes,
    No,
    Unclear,
}

/// What archiving does next.
#[derive(Clone, Copy, Debug, PartialEq, Eq, Structural)]
pub enum ArchiveAction {
    /// Write the record's text to the day's archive file, then clear the record.
    Write,
    /// Ask whether to overwrite the day's existing archive.
    Ask,
    /// Leave the archive and the record as they are.
    Abort,
}

/// `y` is yes, `n` is no, anything else is unclear.
pub open spec fn answer_of(trimmed: Seq<char>) -> Confirmation {
    if trimmed == "y"@ {
        Confirmation::Yes
    } else if trimmed == "n"@ {
        Confirmation::No
    } else {
        Confirmation::Unclear
    }
}

/// A character with the Unicode White_Space property.
pub open spec fn is_white_space(c: char) -> bool {
    let n = c as u32;
    (0x9 <= n <= 0xd) || n == 0x20 || n == 0x85 || n == 0xa0 || n == 0x1680 || (0x2000 <= n
        <= 0x200a) || n == 0x2028 || n == 0x2029 || n == 0x202f || n == 0x205f || n == 0x3000
}

/// `s` without its trailing white space.
pub open spec fn trimmed_end(s: Seq<char>) -> Seq<char>
    decreases s.len(),
{
    if s.len() > 0 && is_white_space(s.last()) {
        trimmed_end(s.drop_last())
    } else {
        s
    }
}

/// Relies on `str::trim_end`: the longest prefix of the text that is empty
/// or ends in a character other than white space, where white space is what
/// `char::is_whitespace` accepts, the Unicode White_Space property.
#[verifier::external_body]
fn trim_end(s: &str) -> (r: &str)
    ensures
        r@.len() <= s@.len(),
        r@ == s@.take(r@.len() as int),
        forall|i: int| r@.len() <= i < s@.len() ==> is_white_space(#[trigger] s@[i]),
        r@.len() == 0 || !is_white_space(r@.last()),
{
    s.trim_end()
}

proof fn lemma_trimmed_end(s: Seq<char>, k: int)
    requires
        0 <= k <= s.len(),
        forall|i: int| k <= i < s.len() ==> is_white_space(#[trigger] s[i]),
        k == 0 || !is_white_space(s[k - 1]),
    ensures
        trimmed_end(s) == s.take(k),
    decreases s.len(),
{
    if s.len() > k {
        assert(is_white_space(s[s.len() - 1]));
        lemma_trimmed_end(s.drop_last(), k);
        assert(s.drop_last().take(k) =~= s.take(k));
    } else {
        assert(s.take(k) =~= s);
    }
}

/// The answer that a reply already stripped of trailing whitespace gives.
pub fn confirmation_of(trimmed: &str) -> (r: Confirmation)
    ensures
        r == answer_of(trimmed@),
{
    if str_is(trimmed, "y") {
        Confirmation::Yes
    } else if str_is(trimmed, "n") {
        Confirmation::No
    } else {
        Confirmation::Unclear
    }
}

/// The answer that a typed reply gives, trailing whitespace and line end aside.
pub fn read_confirmation(reply: &str) -> (r: Confirmation)
    ensures
        r == answer_of(trimmed_end(reply@)),
{
    let t = trim_end(reply);
    proof {
        lemma_trimmed_end(reply@, t@.len() as int);
    }
    confirmation_of(t)
}

/// The next archiving step. Without an archive for the day it is written at
/// once; over an existing one only an explicit yes writes, a no aborts, and
/// no answer yet or an unclear one asks (again).
pub fn archive_step(exists: bool, answer: Option<Confirmation>) -> (r: ArchiveAction)
    ensures
        !exists ==> r == ArchiveAction::Write,
        exists ==> (r == ArchiveAction::Write <==> answer == Some(Confirmation::Yes)),
        exists ==> (r == ArchiveAction::Abort <==> answer == Some(Confirmation::No)),
        exists ==> (r == ArchiveAction::Ask <==> (answer is None || answer == Some(
            Confirmation::Unclear,
        ))),
{
    if !exists {
        return ArchiveAction::Write;
    }
    match answer {
        Some(Confirmation::Yes) => ArchiveAction::Write,
        Some(Confirmation::No) => ArchiveAction::Abort,
        _ => ArchiveAction::Ask,
    }
}

} // verus!
