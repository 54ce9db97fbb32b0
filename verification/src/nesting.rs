//! A bound on how deeply a text can nest when it is read as a document.
//!
//! The parser descends once for each array or inline table that opens and
//! once for each part of a dotted key, in keys and in table headers alike.
//! It does so on the tokens `[`, `{` and `.`, which are those characters
//! where they stand outside strings and comments. The scan here follows
//! strings and comments as the parser's tokenizer does, character by
//! character, and counts those three outside them. A text with few of them
//! cannot nest deeply; a flat table of strings holds none.
//!
//! Where the tokenizer would fail, which ends the reading, the scan goes on
//! and counts what follows as it finds it.

use vstd::prelude::*;

verus! {

/// The most openings and key dots that a text may hold to be read. A flat
/// table of strings holds none outside its strings and comments.
pub const MAX_NESTING: usize = 128;

/// Where the scan stands.
#[derive(Clone, Copy, PartialEq, Eq, Structural, Debug)]
pub enum Place {
    /// Outside strings and comments.
    Plain,
    /// Just behind one quote that opens a string.
    Opened,
    /// Just behind two quotes that open a string: it is empty unless a
    /// third follows.
    Paired,
    /// Within a string of one line, which its quote ends.
    Quoted,
    /// Within a string that may run over lines, which three of its quotes
    /// in a row end.
    Long,
    /// Just behind the three quotes that end such a string: up to two more
    /// that follow at once belong to it.
    Tail,
    /// Within a comment, which the line's end ends.
    Comment,
}

/// The state of the scan behind a prefix of the text.
#[derive(Clone, Copy, Debug)]
pub struct Scan {
    /// Where the scan stands.
    pub place: Place,
    /// The quote of the string that is opening, open or ending.
    pub quote: char,
    /// Whether a `\` stands just before, within a string that takes it.
    pub escaped: bool,
    /// In `Long`, how many quotes stand just before in a row, below three;
    /// in `Tail`, how many have followed the three, below two.
    pub run: u8,
    /// The openings and key dots counted, up to one more than the bound.
    pub count: usize,
}

/// Whether the character is a quote.
pub open spec fn is_quote(c: char) -> bool {
    c == '"' || c == '\''
}

/// Whether the character ends a line.
pub open spec fn is_line_end(c: char) -> bool {
    c == '\n' || c == '\r'
}

/// Whether the character ends a comment: any control character but the tab.
pub open spec fn ends_comment(c: char) -> bool {
    (c as u32) < 0x20 && c != '\t'
}

/// Whether the character, outside strings and comments, can make the
/// parser descend.
pub open spec fn descends(c: char) -> bool {
    c == '[' || c == '{' || c == '.'
}

/// The state before the first character.
pub open spec fn scan_start() -> Scan {
    Scan { place: Place::Plain, quote: '"', escaped: false, run: 0, count: 0 }
}

/// The state once `c` is read outside strings and comments: a quote opens
/// a string, `#` a comment, and an opening or a dot is counted.
pub open spec fn plain_step(scan: Scan, c: char) -> Scan {
    if is_quote(c) {
        Scan { place: Place::Opened, quote: c, escaped: false, run: 0, count: scan.count }
    } else if c == '#' {
        Scan { place: Place::Comment, quote: scan.quote, escaped: false, run: 0, count: scan.count }
    } else {
        Scan {
            place: Place::Plain,
            quote: scan.quote,
            escaped: false,
            run: 0,
            count: if descends(c) && scan.count <= MAX_NESTING {
                (scan.count + 1) as usize
            } else {
                scan.count
            },
        }
    }
}

/// The state once `c` is read within a string of one line. The line's end
/// ends it too: the tokenizer fails there.
pub open spec fn quoted_step(scan: Scan, c: char) -> Scan {
    if is_line_end(c) {
        Scan { place: Place::Plain, escaped: false, run: 0, ..scan }
    } else if scan.escaped {
        Scan { place: Place::Quoted, escaped: false, run: 0, ..scan }
    } else if c == scan.quote {
        Scan { place: Place::Plain, escaped: false, run: 0, ..scan }
    } else {
        Scan { place: Place::Quoted, escaped: scan.quote == '"' && c == '\\', run: 0, ..scan }
    }
}

/// The state once `c` is read within a string that may run over lines.
pub open spec fn long_step(scan: Scan, c: char) -> Scan {
    if scan.escaped {
        Scan { place: Place::Long, escaped: false, run: 0, ..scan }
    } else if c == scan.quote {
        if scan.run >= 2 {
            Scan { place: Place::Tail, escaped: false, run: 0, ..scan }
        } else {
            Scan { place: Place::Long, escaped: false, run: (scan.run + 1) as u8, ..scan }
        }
    } else {
        Scan { place: Place::Long, escaped: scan.quote == '"' && c == '\\', run: 0, ..scan }
    }
}

/// The state once `c` is read.
pub open spec fn scan_step(scan: Scan, c: char) -> Scan {
    match scan.place {
        Place::Plain => plain_step(scan, c),
        Place::Opened => if c == scan.quote {
            Scan { place: Place::Paired, ..scan }
        } else {
            quoted_step(scan, c)
        },
        Place::Paired => if c == scan.quote {
            Scan { place: Place::Long, escaped: false, run: 0, ..scan }
        } else {
            plain_step(scan, c)
        },
        Place::Quoted => quoted_step(scan, c),
        Place::Long => long_step(scan, c),
        Place::Tail => if c == scan.quote {
            if scan.run >= 1 {
                Scan { place: Place::Plain, escaped: false, run: 0, ..scan }
            } else {
                Scan { place: Place::Tail, escaped: false, run: 1, ..scan }
            }
        } else {
            plain_step(scan, c)
        },
        Place::Comment => if ends_comment(c) {
            Scan { place: Place::Plain, escaped: false, run: 0, ..scan }
        } else {
            scan
        },
    }
}

/// The state behind the whole of a text.
pub open spec fn scan_of(text: Seq<char>) -> Scan {
    text.fold_left(scan_start(), |scan: Scan, c: char| scan_step(scan, c))
}

/// The openings and key dots of a text that stand outside its strings and
/// comments, counted up to one more than the bound.
pub open spec fn nesting(text: Seq<char>) -> nat {
    scan_of(text).count as nat
}

/// Nothing is counted within a string or a comment, and outside them only
/// an opening or a dot, and only one at a time.
pub proof fn lemma_counts_outside_only(scan: Scan, c: char)
    ensures
        scan_step(scan, c).count == scan.count || scan_step(scan, c).count == scan.count + 1,
        scan_step(scan, c).count != scan.count ==> descends(c) && scan_step(scan, c).place
            == Place::Plain && (scan.place == Place::Plain || scan.place == Place::Paired
            || scan.place == Place::Tail),
{
}

fn plain(scan: Scan, c: char) -> (next: Scan)
    ensures
        next == plain_step(scan, c),
{
    if c == '"' || c == '\'' {
        Scan { place: Place::Opened, quote: c, escaped: false, run: 0, count: scan.count }
    } else if c == '#' {
        Scan { place: Place::Comment, quote: scan.quote, escaped: false, run: 0, count: scan.count }
    } else {
        let descends = c == '[' || c == '{' || c == '.';
        Scan {
            place: Place::Plain,
            quote: scan.quote,
            escaped: false,
            run: 0,
            count: if descends && scan.count <= MAX_NESTING {
                scan.count + 1
            } else {
                scan.count
            },
        }
    }
}

fn quoted(scan: Scan, c: char) -> (next: Scan)
    ensures
        next == quoted_step(scan, c),
{
    if c == '\n' || c == '\r' {
        Scan { place: Place::Plain, escaped: false, run: 0, ..scan }
    } else if scan.escaped {
        Scan { place: Place::Quoted, escaped: false, run: 0, ..scan }
    } else if c == scan.quote {
        Scan { place: Place::Plain, escaped: false, run: 0, ..scan }
    } else {
        Scan { place: Place::Quoted, escaped: scan.quote == '"' && c == '\\', run: 0, ..scan }
    }
}

fn long(scan: Scan, c: char) -> (next: Scan)
    ensures
        next == long_step(scan, c),
{
    if scan.escaped {
        Scan { place: Place::Long, escaped: false, run: 0, ..scan }
    } else if c == scan.quote {
        if scan.run >= 2 {
            Scan { place: Place::Tail, escaped: false, run: 0, ..scan }
        } else {
            Scan { place: Place::Long, escaped: false, run: scan.run + 1, ..scan }
        }
    } else {
        Scan { place: Place::Long, escaped: scan.quote == '"' && c == '\\', run: 0, ..scan }
    }
}

/// The state once `c` is read.
fn step(scan: Scan, c: char) -> (next: Scan)
    ensures
        next == scan_step(scan, c),
{
    match scan.place {
        Place::Plain => plain(scan, c),
        Place::Opened => if c == scan.quote {
            Scan { place: Place::Paired, ..scan }
        } else {
            quoted(scan, c)
        },
        Place::Paired => if c == scan.quote {
            Scan { place: Place::Long, escaped: false, run: 0, ..scan }
        } else {
            plain(scan, c)
        },
        Place::Quoted => quoted(scan, c),
        Place::Long => long(scan, c),
        Place::Tail => if c == scan.quote {
            if scan.run >= 1 {
                Scan { place: Place::Plain, escaped: false, run: 0, ..scan }
            } else {
                Scan { place: Place::Tail, escaped: false, run: 1, ..scan }
            }
        } else {
            plain(scan, c)
        },
        Place::Comment => if (c as u32) < 0x20 && c != '\t' {
            Scan { place: Place::Plain, escaped: false, run: 0, ..scan }
        } else {
            scan
        },
    }
}

/// Whether the text holds no more openings and key dots than the bound
/// allows, strings and comments apart.
pub fn nests_within_bound(text: &str) -> (within: bool)
    ensures
        within == (nesting(text@) <= MAX_NESTING),
{
    let mut scan = Scan { place: Place::Plain, quote: '"', escaped: false, run: 0, count: 0 };
    for c in iter: text.chars()
        invariant
            iter.seq() == text@,
            scan == scan_of(iter.seq().take(iter.index() as int)),
    {
        proof {
            let read = iter.seq().take(iter.index() as int);
            assert(iter.seq().take(iter.index() + 1).drop_last() =~= read);
        }
        scan = step(scan, c);
    }
    assert(text@.take(text@.len() as int) =~= text@);
    scan.count <= MAX_NESTING
}

} // verus!
