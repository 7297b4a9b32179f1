//! The names of the log files.
//!
//! A file is named by the prefix of the configuration, the instant of its
//! creation and the extension `.log`. The instant is written with `-` in
//! place of every `.` and `:` and with `T` in place of every space, so that
//! the name holds none of these three characters after its prefix and before
//! its extension. The text of an instant has one width for all instants, so
//! under one prefix the names sort as the instants of creation do.

use vstd::prelude::*;
use vstd::string::{StrSliceExecFns, StringExecFns};
use crate::calendar::{
    digit_differs_at, digit_differs_below, instant_before, lemma_stamps_in_order, stamp_text,
    valid_instant,
};

verus! {

/// The character that stands in a file name for `c`.
pub open spec fn sanitize_char(c: char) -> char {
    if c == '.' || c == ':' {
        '-'
    } else if c == ' ' {
        'T'
    } else {
        c
    }
}

/// The text with every character replaced by the one that stands for it.
pub open spec fn sanitized(text: Seq<char>) -> Seq<char> {
    Seq::new(text.len(), |i: int| sanitize_char(text[i]))
}

/// The name of the log file with the given prefix that is created at the
/// instant written as `stamp`.
pub open spec fn file_name(prefix: Seq<char>, stamp: Seq<char>) -> Seq<char> {
    prefix + sanitized(stamp) + ".log"@
}

/// The directory, under the working directory of the process, in which the
/// log files are kept.
pub fn log_directory() -> (name: &'static str)
    ensures
        name@ == "logs"@,
{
    "logs"
}

/// Makes the text of an instant fit for a file name.
pub fn sanitize_timestamp(text: &str) -> (clean: String)
    ensures
        clean@ == sanitized(text@),
{
    let n = text.unicode_len();
    let mut clean = String::new();
    let mut i: usize = 0;
    while i < n
        invariant
            i <= n,
            n == text@.len(),
            clean@ == sanitized(text@).take(i as int),
        decreases n - i,
    {
        let c = text.get_char(i);
        if c == '.' || c == ':' {
            proof {
                reveal_strlit("-");
            }
            clean.append("-");
        } else if c == ' ' {
            proof {
                reveal_strlit("T");
            }
            clean.append("T");
        } else {
            clean.append(text.substring_char(i, i + 1));
        }
        assert(clean@ =~= sanitized(text@).take(i + 1));
        i += 1;
    }
    assert(sanitized(text@).take(n as int) =~= sanitized(text@));
    clean
}

/// Builds the name of the log file with the given prefix that is created at
/// the instant written as `stamp`.
pub fn log_file_name(prefix: &str, stamp: &str) -> (name: String)
    ensures
        name@ == file_name(prefix@, stamp@),
{
    let mut name = String::from_str(prefix);
    let clean = sanitize_timestamp(stamp);
    name.append(clean.as_str());
    name.append(".log");
    name
}

/// The order in which strings sort: `a` comes before `b` when `a` is `b` cut
/// short, or when at the first place where they differ `a` holds the lesser
/// character.
pub open spec fn sorts_before(a: Seq<char>, b: Seq<char>) -> bool {
    exists|k: int|
        0 <= k <= a.len() && k < b.len() && #[trigger] a.take(k) == b.take(k) && (k < a.len() ==> (
        a[k] as u32) < (b[k] as u32))
}

/// `a` and `b` differ at a place that both of them have, and at the first
/// such place `a` holds the lesser character.
pub open spec fn differs_below(a: Seq<char>, b: Seq<char>) -> bool {
    exists|k: int|
        0 <= k < a.len() && k < b.len() && #[trigger] a.take(k) == b.take(k) && (a[k] as u32) < (
        b[k] as u32)
}

/// No string sorts before itself, and of two strings at most one sorts
/// before the other.
pub proof fn lemma_sorts_before_is_strict(a: Seq<char>, b: Seq<char>)
    ensures
        !sorts_before(a, a),
        sorts_before(a, b) ==> !sorts_before(b, a),
{
    if sorts_before(a, b) && sorts_before(b, a) {
        let i = choose|k: int|
            0 <= k <= a.len() && k < b.len() && #[trigger] a.take(k) == b.take(k) && (k < a.len()
                ==> (a[k] as u32) < (b[k] as u32));
        let j = choose|k: int|
            0 <= k <= b.len() && k < a.len() && #[trigger] b.take(k) == a.take(k) && (k < b.len()
                ==> (b[k] as u32) < (a[k] as u32));
        if i < j {
            assert(b.take(j)[i] == a.take(j)[i]);
        } else if j < i {
            assert(a.take(i)[j] == b.take(i)[j]);
        }
    }
}

/// The part of a file name that stands for the instant is as long as the
/// text of the instant, and holds no `.`, no `:` and no space.
pub proof fn lemma_sanitized_is_safe(text: Seq<char>)
    ensures
        sanitized(text).len() == text.len(),
        forall|i: int|
            0 <= i < text.len() ==> {
                let c = #[trigger] sanitized(text)[i];
                c != '.' && c != ':' && c != ' '
            },
{
}

/// Under one prefix, two texts give the same file name exactly when they
/// are the same once they are made fit for a file name.
pub proof fn lemma_same_name_same_stamp(prefix: Seq<char>, first: Seq<char>, second: Seq<char>)
    ensures
        file_name(prefix, first) == file_name(prefix, second) <==> sanitized(first) == sanitized(
            second,
        ),
{
    let a = sanitized(first);
    let b = sanitized(second);
    let x = file_name(prefix, first);
    let y = file_name(prefix, second);
    if x == y {
        assert(a.len() == b.len()) by {
            assert(x.len() == prefix.len() + a.len() + ".log"@.len());
            assert(y.len() == prefix.len() + b.len() + ".log"@.len());
        }
        assert forall|i: int| 0 <= i < a.len() implies a[i] == b[i] by {
            assert(x[prefix.len() + i] == a[i]);
            assert(y[prefix.len() + i] == b[i]);
        }
        assert(a =~= b);
    }
}

/// Under one prefix, file names sort as the texts they are made from: where
/// the first text, made fit for a file name, differs from the second at a
/// place that both have, and holds the lesser character there, the first
/// file name is another name than the second and sorts before it.
pub proof fn lemma_names_sort_as_stamps(prefix: Seq<char>, first: Seq<char>, second: Seq<char>)
    requires
        differs_below(sanitized(first), sanitized(second)),
    ensures
        sorts_before(file_name(prefix, first), file_name(prefix, second)),
        file_name(prefix, first) != file_name(prefix, second),
{
    let a = sanitized(first);
    let b = sanitized(second);
    let x = file_name(prefix, first);
    let y = file_name(prefix, second);
    let k = choose|k: int|
        0 <= k < a.len() && k < b.len() && #[trigger] a.take(k) == b.take(k) && (a[k] as u32) < (
        b[k] as u32);
    let at = prefix.len() + k;
    assert(x[at] == a[k]);
    assert(y[at] == b[k]);
    assert(x.take(at) =~= y.take(at)) by {
        assert forall|i: int| 0 <= i < at implies x.take(at)[i] == y.take(at)[i] by {
            if i >= prefix.len() {
                assert(x[i] == a.take(k)[i - prefix.len()]);
                assert(y[i] == b.take(k)[i - prefix.len()]);
            }
        }
    }
}

/// Texts that differ first at a digit still do so, and in the same order,
/// once they are made fit for a file name.
pub proof fn lemma_sanitized_keeps_digit_order(a: Seq<char>, b: Seq<char>)
    requires
        digit_differs_below(a, b),
    ensures
        differs_below(sanitized(a), sanitized(b)),
{
    let k = choose|k: int| #[trigger] digit_differs_at(a, b, k);
    assert(sanitized(a).take(k) =~= sanitized(a.take(k)));
    assert(sanitized(b).take(k) =~= sanitized(b.take(k)));
    assert(sanitized(a)[k] == a[k]);
    assert(sanitized(b)[k] == b[k]);
}

/// Under one prefix, the file names sort as the instants of creation do: of
/// two instants the earlier one gets a name that is another name than that
/// of the later one and sorts before it.
pub proof fn lemma_names_sort_as_instants(
    prefix: Seq<char>,
    seconds: int,
    nanos: int,
    later_seconds: int,
    later_nanos: int,
)
    requires
        valid_instant(seconds, nanos),
        valid_instant(later_seconds, later_nanos),
        instant_before(seconds, nanos, later_seconds, later_nanos),
    ensures
        sorts_before(
            file_name(prefix, stamp_text(seconds, nanos)),
            file_name(prefix, stamp_text(later_seconds, later_nanos)),
        ),
        file_name(prefix, stamp_text(seconds, nanos)) != file_name(
            prefix,
            stamp_text(later_seconds, later_nanos),
        ),
{
    lemma_stamps_in_order(seconds, nanos, later_seconds, later_nanos);
    lemma_sanitized_keeps_digit_order(
        stamp_text(seconds, nanos),
        stamp_text(later_seconds, later_nanos),
    );
    lemma_names_sort_as_stamps(
        prefix,
        stamp_text(seconds, nanos),
        stamp_text(later_seconds, later_nanos),
    );
}

} // verus!
