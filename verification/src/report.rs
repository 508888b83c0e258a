//! The lines the finder prints.

use vstd::prelude::*;
use crate::keys::Trial;
use crate::numbers::{
    decimal, decimal_chars, decimal_string, format_with_commas, group_thousands, pad_left,
    pad_left_chars,
};
use crate::text::{push_char, string_of};

verus! {

/// The line announcing a search: `r`, the wanted prefix, `...`, the wanted text followed
/// by `...` when there is one, the wanted suffix, and the processors used out of those
/// available.
pub open spec fn banner_text(
    find: Seq<char>,
    begins: Seq<char>,
    ends: Seq<char>,
    cores: nat,
    available: nat,
) -> Seq<char> {
    "Searching for r"@ + begins + "..."@ + (if find.len() > 0 {
        find + "..."@
    } else {
        Seq::empty()
    }) + ends + " with "@ + decimal(cores) + "/"@ + decimal(available) + " processors."@
}

/// The line announcing a search, or `None` when no pattern is given.
pub fn search_banner(find: &str, begins: &str, ends: &str, cores: usize, available: usize) -> (r:
    Option<String>)
    ensures
        find@.len() == 0 && begins@.len() == 0 && ends@.len() == 0 ==> r is None,
        !(find@.len() == 0 && begins@.len() == 0 && ends@.len() == 0) ==> (r matches Some(s)
            && s@ == banner_text(find@, begins@, ends@, cores as nat, available as nat)),
{
    if find.is_empty() && begins.is_empty() && ends.is_empty() {
        return None;
    }
    let mut s = "Searching for r".to_owned();
    s.append(begins);
    s.append("...");
    if !find.is_empty() {
        s.append(find);
        s.append("...");
    }
    s.append(ends);
    s.append(" with ");
    s.append(decimal_string(cores as u64).as_str());
    s.append("/");
    s.append(decimal_string(available as u64).as_str());
    s.append(" processors.");
    assert(s@ =~= banner_text(find@, begins@, ends@, cores as nat, available as nat));
    Some(s)
}

/// The number of spaces that pad a status line of `len` characters to two short of the
/// terminal's `width`; none when the line is that long already.
pub open spec fn status_padding(width: nat, len: nat) -> nat {
    if width > len + 2 {
        (width - len - 2) as nat
    } else {
        0
    }
}

/// The progress text: seeds tested and the rate, both grouped in thousands.
pub open spec fn progress_text(num: nat, rate: nat) -> Seq<char> {
    "Tested: "@ + group_thousands(decimal(num)) + " seeds at "@ + group_thousands(decimal(rate))
        + "/sec"@
}

/// The status line: a carriage return, the progress text, and spaces up to two short of
/// the terminal width, so that a shorter line overwrites a longer one.
pub fn status_line(num: u64, rate: u64, width: usize) -> (s: String)
    ensures
        s@ == "\r"@ + progress_text(num as nat, rate as nat) + Seq::new(
            status_padding(width as nat, progress_text(num as nat, rate as nat).len()),
            |i: int| ' ',
        ),
{
    let mut prefix = "Tested: ".to_owned();
    prefix.append(format_with_commas(num).as_str());
    prefix.append(" seeds at ");
    prefix.append(format_with_commas(rate).as_str());
    prefix.append("/sec");
    assert(prefix@ =~= progress_text(num as nat, rate as nat));
    let len = prefix.as_str().unicode_len();
    let spaces: usize = if width >= 2 && width - 2 > len {
        width - 2 - len
    } else {
        0
    };
    let mut s = "\r".to_owned();
    s.append(prefix.as_str());
    let ghost base = s@;
    let mut i: usize = 0;
    while i < spaces
        invariant
            i <= spaces,
            s@ == base + Seq::new(i as nat, |j: int| ' '),
        decreases spaces - i,
    {
        push_char(&mut s, ' ');
        i = i + 1;
        assert(s@ =~= base + Seq::new(i as nat, |j: int| ' '));
    }
    s
}

/// The line reporting a found wallet: the seed count right-aligned in three columns,
/// the address and its family seed.
pub open spec fn found_text(num: nat, address: Seq<char>, seed: Seq<char>) -> Seq<char> {
    "\n"@ + pad_left(decimal(num), 3) + ": Found "@ + address + " ( family seed: "@ + seed
        + " )"@
}

/// The line reporting a found wallet.
pub fn found_line(num: u64, trial: &Trial) -> (s: String)
    ensures
        s@ == found_text(num as nat, trial.address@, trial.seed@),
{
    let count = pad_left_chars(&decimal_chars(num), 3);
    let mut s = "\n".to_owned();
    s.append(string_of(&count).as_str());
    s.append(": Found ");
    s.append(trial.address.as_str());
    s.append(" ( family seed: ");
    s.append(trial.seed.as_str());
    s.append(" )");
    assert(s@ =~= found_text(num as nat, trial.address@, trial.seed@));
    s
}

/// Law: a padded status line fills the terminal up to two columns short; a line too
/// long for that gets no padding.
pub proof fn law_status_line_fills_width(width: nat, len: nat)
    ensures
        width > len + 2 ==> len + status_padding(width, len) == width - 2,
        width <= len + 2 ==> status_padding(width, len) == 0,
{
}

/// The width the status line is padded to: the terminal's columns, or 80 when the
/// terminal's size is unknown.
pub fn terminal_width(columns: Option<u16>) -> (w: usize)
    ensures
        w == match columns {
            Some(c) => c as usize,
            None => 80usize,
        },
{
    match columns {
        Some(c) => c as usize,
        None => 80,
    }
}

} // verus!
