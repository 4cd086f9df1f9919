//! Finding a translation name in free text, and listing the loaded
//! translations. The caller supplies the names of the translations it has
//! loaded; matching is case-insensitive on whole words, the earliest
//! occurrence winning and, at one position, the earliest-listed name.

use vstd::prelude::*;
use vstd::string::*;

use crate::strutil::{eq_ignore_case, eq_ignore_case_spec, upper_seq, to_uppercase};

verus! {

/// One verse as the scripture engine hands it over: its human-readable
/// reference, the abbreviated form, its position, and the text.
#[derive(Debug, Clone, PartialEq)]
pub struct Verse {
    pub reference: String,
    pub abbreviation: String,
    pub book: u8,
    pub chapter: u8,
    pub verse: u8,
    pub scripture: String,
}

/// A character that can stand inside a word: a letter, a digit or an
/// underscore. A translation name occurrence only counts when it is not
/// surrounded by such characters.
pub open spec fn is_word_char(c: char) -> bool {
    ('a' <= c && c <= 'z') || ('A' <= c && c <= 'Z') || ('0' <= c && c <= '9') || c == '_'
}

/// Executable check for [`is_word_char`].
pub fn word_char(c: char) -> (r: bool)
    ensures
        r == is_word_char(c),
{
    ('a' <= c && c <= 'z') || ('A' <= c && c <= 'Z') || ('0' <= c && c <= '9') || c == '_'
}

/// `name` occurs in `input` at `pos` as a whole word, without regard to
/// case.
pub open spec fn name_matches_at(input: Seq<char>, name: Seq<char>, pos: int) -> bool {
    &&& 0 <= pos
    &&& name.len() > 0
    &&& pos + name.len() <= input.len()
    &&& eq_ignore_case_spec(input.subrange(pos, pos + name.len()), name)
    &&& (pos == 0 || !is_word_char(input[pos - 1]))
    &&& (pos + name.len() == input.len() || !is_word_char(input[pos + name.len()]))
}

/// Some listed name occurs at `pos`.
pub open spec fn any_name_at(input: Seq<char>, names: Seq<Seq<char>>, pos: int) -> bool {
    exists|k: int| 0 <= k < names.len() && #[trigger] name_matches_at(input, names[k], pos)
}

/// The upper-cased first whole-word occurrence of any name of
/// `bible_names` in `input`, or `default` when none occurs.
#[verifier::rlimit(100)]
pub fn find_bible(input: String, default: &String, bible_names: &Vec<String>) -> (r: String)
    ensures
        (exists|pos: int, k: int|
            0 <= k < bible_names@.len() && #[trigger] name_matches_at(
                input@,
                bible_names@[k]@,
                pos,
            )) ==> exists|pos: int, k: int|
            {
                &&& 0 <= k < bible_names@.len()
                &&& #[trigger] name_matches_at(input@, bible_names@[k]@, pos)
                &&& forall|p2: int, k2: int|
                    0 <= p2 < pos && 0 <= k2 < bible_names@.len() ==> !#[trigger] name_matches_at(
                        input@,
                        bible_names@[k2]@,
                        p2,
                    )
                &&& forall|k2: int|
                    0 <= k2 < k ==> !#[trigger] name_matches_at(input@, bible_names@[k2]@, pos)
                &&& r@ == upper_seq(input@.subrange(pos, pos + bible_names@[k]@.len()))
            },
        !(exists|pos: int, k: int|
            0 <= k < bible_names@.len() && #[trigger] name_matches_at(
                input@,
                bible_names@[k]@,
                pos,
            )) ==> r@ == default@,
{
    let ghost name_views = bible_names@.map_values(|n: String| n@);
    let len = input.as_str().unicode_len();
    let mut pos: usize = 0;
    while pos < len
        invariant
            0 <= pos <= len,
            len == input@.len(),
            name_views == bible_names@.map_values(|n: String| n@),
            forall|p2: int, k: int|
                0 <= p2 < pos && 0 <= k < bible_names@.len() ==> !#[trigger] name_matches_at(
                    input@,
                    bible_names@[k]@,
                    p2,
                ),
        decreases len - pos,
    {
        let mut k: usize = 0;
        let n_names = bible_names.len();
        while k < n_names
            invariant
                0 <= k <= n_names,
                n_names == bible_names@.len(),
                0 <= pos <= len,
                len == input@.len(),
                forall|k2: int|
                    0 <= k2 < k ==> !#[trigger] name_matches_at(
                        input@,
                        bible_names@[k2]@,
                        pos as int,
                    ),
                forall|p2: int, k2: int|
                    0 <= p2 < pos && 0 <= k2 < bible_names@.len() ==> !#[trigger] name_matches_at(
                        input@,
                        bible_names@[k2]@,
                        p2,
                    ),
            decreases n_names - k,
        {
            let name = &bible_names[k];
            let n_len = name.as_str().unicode_len();
            if n_len > 0 && n_len <= len - pos {
                let piece = input.as_str().substring_char(pos, pos + n_len);
                let inner = eq_ignore_case(piece, name.as_str());
                let left_ok = pos == 0 || !word_char(input.as_str().get_char(pos - 1));
                let right_ok = pos + n_len == len || !word_char(
                    input.as_str().get_char(pos + n_len),
                );
                proof {
                    assert(piece@ =~= input@.subrange(pos as int, pos + name@.len()));
                }
                if inner && left_ok && right_ok {
                    proof {
                        assert(name_matches_at(input@, bible_names@[k as int]@, pos as int));
                    }
                    return to_uppercase(piece);
                } else {
                    proof {
                        assert(!name_matches_at(input@, bible_names@[k as int]@, pos as int));
                    }
                }
            } else {
                proof {
                    assert(!name_matches_at(input@, bible_names@[k as int]@, pos as int));
                }
            }
            k = k + 1;
        }
        proof {
            assert forall|k2: int| 0 <= k2 < bible_names@.len() implies !#[trigger] name_matches_at(
                input@,
                bible_names@[k2]@,
                pos as int,
            ) by {}
        }
        pos = pos + 1;
    }
    proof {
        assert forall|p2: int, k: int|
            0 <= k < bible_names@.len() && 0 <= p2 implies !#[trigger] name_matches_at(
            input@,
            bible_names@[k]@,
            p2,
        ) by {
            if name_matches_at(input@, bible_names@[k]@, p2) {
                assert(p2 + bible_names@[k]@.len() <= input@.len());
                assert(p2 < len);
            }
        }
    }
    default.clone()
}

/// The listed names joined by `", "`, in order.
pub open spec fn joined_names(names: Seq<Seq<char>>) -> Seq<char>
    decreases names.len(),
{
    if names.len() == 0 {
        Seq::empty()
    } else if names.len() == 1 {
        names[0]
    } else {
        joined_names(names.drop_last()) + ", "@ + names.last()
    }
}

/// The loaded translation names as one comma-separated line.
pub fn avaialble_bibles(bible_names: &Vec<String>) -> (r: String)
    ensures
        r@ == joined_names(bible_names@.map_values(|n: String| n@)),
{
    let ghost name_views = bible_names@.map_values(|n: String| n@);
    let mut out = String::new();
    let mut i: usize = 0;
    let len = bible_names.len();
    while i < len
        invariant
            0 <= i <= len,
            len == bible_names@.len(),
            name_views == bible_names@.map_values(|n: String| n@),
            out@ == joined_names(name_views.take(i as int)),
        decreases len - i,
    {
        if i > 0 {
            out.append(", ");
        }
        out.append(bible_names[i].as_str());
        proof {
            assert(name_views.take(i + 1).drop_last() =~= name_views.take(i as int));
            assert(name_views.take(i + 1).last() == bible_names@[i as int]@);
            if i == 0 {
                assert(out@ =~= joined_names(name_views.take(1)));
            }
        }
        i = i + 1;
    }
    proof {
        assert(name_views.take(len as int) =~= name_views);
    }
    out
}

} // verus!
