//! Assembling one chat reply out of a run of verses: the verse texts
//! joined and suffixed with a reference line, and — when that exceeds the
//! channel's message budget — a greedy prefix of whole verses with a
//! continuation hint, plus the remainder to send on request.

use vstd::prelude::*;
use vstd::string::*;

use crate::bibles::Verse;
use crate::strutil::{
    dec_digits, spec_find, trim_start, trim_start_spec, u64_to_string,
};

verus! {

/// What one build yields: the text to send now, the text a continuation
/// command picks up, and the reference of the last verse sent.
pub struct ResponseOutput {
    pub truncated: String,
    pub remainder: String,
    pub last_verse: String,
}

pub struct ResponseBuilder;

/// Everything before the first `:` of a reference, or all of it.
pub open spec fn before_colon(s: Seq<char>) -> Seq<char> {
    match spec_find(s, seq![':']) {
        Some(i) => s.take(i),
        None => s,
    }
}

/// The reference line `prefix:start[-end] bible`.
pub open spec fn ref_line(prefix: Seq<char>, start: int, end: int, bible: Seq<char>) -> Seq<char> {
    if start == end {
        prefix + seq![':'] + dec_digits(start) + seq![' '] + bible
    } else {
        prefix + seq![':'] + dec_digits(start) + seq!['-'] + dec_digits(end) + seq![' '] + bible
    }
}

/// The verse texts joined by single spaces.
pub open spec fn joined_scriptures(vs: Seq<Verse>) -> Seq<char>
    decreases vs.len(),
{
    if vs.len() == 0 {
        Seq::empty()
    } else if vs.len() == 1 {
        vs[0].scripture@
    } else {
        joined_scriptures(vs.drop_last()) + seq![' '] + vs.last().scripture@
    }
}

/// The first `i` verse texts, each preceded by one space.
pub open spec fn spaced_prefix(vs: Seq<Verse>, i: int) -> Seq<char>
    decreases i,
{
    if i <= 0 {
        Seq::empty()
    } else {
        spaced_prefix(vs, i - 1) + seq![' '] + vs[i - 1].scripture@
    }
}

/// How many whole verses the greedy truncation loop takes: it stops at
/// the first verse whose addition would reach `adjusted`.
pub open spec fn take_count(vs: Seq<Verse>, adjusted: int, i: int) -> int
    decreases vs.len() - i,
{
    if i < 0 || i >= vs.len() {
        i
    } else if spaced_prefix(vs, i + 1).len() < adjusted {
        take_count(vs, adjusted, i + 1)
    } else {
        i
    }
}

/// The last space at or before position `i` of `s`.
pub open spec fn last_space_upto(s: Seq<char>, i: int) -> Option<int>
    decreases i + 1,
{
    if i < 0 {
        Option::None
    } else if i < s.len() && s[i] == ' ' {
        Some(i)
    } else {
        last_space_upto(s, i - 1)
    }
}

/// Where the remainder begins: after the last space inside the budget, or
/// at the budget itself when no space precedes it.
pub open spec fn break_point(s: Seq<char>, adjusted: int) -> int {
    match last_space_upto(s, adjusted) {
        Some(i) => i,
        None => adjusted,
    }
}

/// The reply's full form: the joined verses, a dash, and the reference.
pub open spec fn full_reply(vs: Seq<Verse>, bible: Seq<char>) -> Seq<char> {
    joined_scriptures(vs) + " - "@ + ref_line(
        before_colon(vs.last().reference@),
        vs[0].verse as int,
        vs.last().verse as int,
        bible,
    )
}

/// The abbreviated reference line whose length the truncation budget is
/// measured against.
pub open spec fn abbrev_line(vs: Seq<Verse>, bible: Seq<char>) -> Seq<char> {
    ref_line(
        before_colon(vs.last().abbreviation@),
        vs[0].verse as int,
        vs.last().verse as int,
        bible,
    )
}

/// The last verse the truncated reply still carries.
pub open spec fn kept_last(vs: Seq<Verse>, adjusted: int) -> Verse {
    let n = take_count(vs, adjusted, 0);
    if n > 0 {
        vs[n - 1]
    } else {
        vs.last()
    }
}

proof fn lemma_last_space_props(s: Seq<char>, i: int)
    ensures
        match last_space_upto(s, i) {
            Some(j) => 0 <= j <= i && j < s.len() && s[j] == ' ' && forall|t: int|
                j < t <= i && t < s.len() ==> s[t] != ' ',
            None => forall|t: int| 0 <= t <= i && t < s.len() ==> s[t] != ' ',
        },
    decreases i + 1,
{
    if i >= 0 && !(i < s.len() && s[i] == ' ') {
        lemma_last_space_props(s, i - 1);
    }
}

proof fn lemma_take_count_props(vs: Seq<Verse>, adjusted: int, i: int)
    requires
        0 <= i <= vs.len(),
    ensures
        i <= take_count(vs, adjusted, i) <= vs.len(),
        forall|j: int|
            i <= j < take_count(vs, adjusted, i) ==> #[trigger] spaced_prefix(vs, j + 1).len()
                < adjusted,
        take_count(vs, adjusted, i) < vs.len() ==> spaced_prefix(
            vs,
            take_count(vs, adjusted, i) + 1,
        ).len() >= adjusted,
    decreases vs.len() - i,
{
    if i < vs.len() && spaced_prefix(vs, i + 1).len() < adjusted {
        lemma_take_count_props(vs, adjusted, i + 1);
    }
}

/// Everything before the first `:` of `s`, or all of `s`.
fn before_colon_exec(s: &str) -> (r: String)
    ensures
        r@ == before_colon(s@),
{
    proof {
        reveal_strlit(":");
        assert(":"@ =~= seq![':']);
    }
    match crate::strutil::find_sub(s, ":") {
        Some(i) => {
            let piece = s.substring_char(0, i);
            proof {
                assert(piece@ =~= s@.take(i as int));
            }
            String::from_str(piece)
        },
        None => String::from_str(s),
    }
}

/// The reference line `prefix:start[-end] bible`.
fn ref_line_exec(prefix: &str, start: u8, end: u8, bible: &str) -> (r: String)
    ensures
        r@ == ref_line(prefix@, start as int, end as int, bible@),
{
    let mut out = String::from_str(prefix);
    out.append(":");
    let start_digits = u64_to_string(start as u64);
    out.append(start_digits.as_str());
    if start != end {
        out.append("-");
        let end_digits = u64_to_string(end as u64);
        out.append(end_digits.as_str());
    }
    out.append(" ");
    out.append(bible);
    proof {
        reveal_strlit(":");
        reveal_strlit("-");
        reveal_strlit(" ");
        assert(":"@ =~= seq![':']);
        assert("-"@ =~= seq!['-']);
        assert(" "@ =~= seq![' ']);
        assert(out@ =~= ref_line(prefix@, start as int, end as int, bible@));
    }
    out
}

impl ResponseBuilder {
    /// Builds the reply for `verses` under the channel's `total_length`
    /// character budget.
    ///
    /// When the full form fits it is sent whole and nothing remains.
    /// Otherwise whole verses are kept while they stay inside the budget
    /// left over for the abbreviated reference and the continuation hint,
    /// and the rest of the joined text — cut at the last space inside
    /// that budget — remains for the next continuation command.
    pub fn build(verses: &Vec<Verse>, total_length: usize, bible_name_to_use: &str) -> (r:
        ResponseOutput)
        requires
            verses@.len() > 0,
            full_reply(verses@, bible_name_to_use@).len() > total_length ==> {
                &&& total_length >= abbrev_line(verses@, bible_name_to_use@).len() + 18
                &&& total_length - abbrev_line(verses@, bible_name_to_use@).len() - 18
                    <= joined_scriptures(verses@).len()
            },
        ensures
            full_reply(verses@, bible_name_to_use@).len() <= total_length ==> {
                &&& r.truncated@ == full_reply(verses@, bible_name_to_use@)
                &&& r.remainder@ == Seq::<char>::empty()
                &&& r.last_verse@ == verses@.last().reference@
            },
            full_reply(verses@, bible_name_to_use@).len() > total_length ==> {
                let adjusted = total_length - abbrev_line(verses@, bible_name_to_use@).len()
                    - 18;
                let kept = take_count(verses@, adjusted, 0);
                &&& r.truncated@ == spaced_prefix(verses@, kept) + " - "@ + ref_line(
                    before_colon(verses@.last().abbreviation@),
                    verses@[0].verse as int,
                    kept_last(verses@, adjusted).verse as int,
                    bible_name_to_use@,
                ) + " !next to continue"@
                &&& r.remainder@ == trim_start_spec(
                    joined_scriptures(verses@).skip(break_point(
                        joined_scriptures(verses@),
                        adjusted,
                    )),
                )
                &&& r.last_verse@ == kept_last(verses@, adjusted).reference@
            },
    {
        let n = verses.len();
        let last = &verses[n - 1];
        let start_verse = verses[0].verse;
        let end_verse = last.verse;
        let reference = before_colon_exec(last.reference.as_str());
        let abbreviation = before_colon_exec(last.abbreviation.as_str());

        let scripture_reference = ref_line_exec(
            reference.as_str(),
            start_verse,
            end_verse,
            bible_name_to_use,
        );
        let scripture_reference_abbreviation = ref_line_exec(
            abbreviation.as_str(),
            start_verse,
            end_verse,
            bible_name_to_use,
        );

        // the verse texts joined by single spaces
        let mut scriptures = String::new();
        let mut i: usize = 0;
        while i < n
            invariant
                0 <= i <= n,
                n == verses@.len(),
                scriptures@ == joined_scriptures(verses@.take(i as int)),
            decreases n - i,
        {
            if i > 0 {
                scriptures.append(" ");
            }
            scriptures.append(verses[i].scripture.as_str());
            proof {
                reveal_strlit(" ");
                assert(" "@ =~= seq![' ']);
                assert(verses@.take(i + 1).drop_last() =~= verses@.take(i as int));
                assert(verses@.take(i + 1).last() == verses@[i as int]);
                if i == 0 {
                    assert(scriptures@ =~= joined_scriptures(verses@.take(1)));
                }
            }
            i = i + 1;
        }
        proof {
            assert(verses@.take(n as int) =~= verses@);
        }

        let mut scripture_full = scriptures.clone();
        scripture_full.append(" - ");
        scripture_full.append(scripture_reference.as_str());
        proof {
            assert(scripture_full@ =~= full_reply(verses@, bible_name_to_use@));
        }

        if scripture_full.as_str().unicode_len() <= total_length {
            return ResponseOutput {
                truncated: scripture_full,
                remainder: String::new(),
                last_verse: last.reference.clone(),
            };
        }
        // space left for whole verses once the abbreviated reference and
        // the continuation hint are accounted for
        let adjusted_length = total_length - scripture_reference_abbreviation.as_str().unicode_len()
            - 18;

        let mut scripture = String::new();
        let mut scripture_len: usize = 0;
        let mut kept: usize = 0;
        proof {
            lemma_take_count_props(verses@, adjusted_length as int, 0);
        }
        let mut done = false;
        while kept < n && !done
            invariant
                0 <= kept <= n,
                n == verses@.len(),
                scripture@ == spaced_prefix(verses@, kept as int),
                scripture_len == scripture@.len(),
                scripture_len <= adjusted_length || kept == 0,
                forall|j: int|
                    0 <= j < kept ==> #[trigger] spaced_prefix(verses@, j + 1).len()
                        < adjusted_length,
                take_count(verses@, adjusted_length as int, kept as int) == take_count(
                    verses@,
                    adjusted_length as int,
                    0,
                ),
                done ==> kept < n && spaced_prefix(verses@, kept + 1).len() >= adjusted_length,
            decreases n - kept, 1int - (if done { 1int } else { 0int }),
        {
            let piece_len = verses[kept].scripture.as_str().unicode_len();
            let fits = piece_len < adjusted_length && scripture_len < adjusted_length - piece_len
                - 1;
            proof {
                reveal_strlit(" ");
                assert(" "@ =~= seq![' ']);
                assert(spaced_prefix(verses@, kept + 1) =~= spaced_prefix(verses@, kept as int)
                    + seq![' '] + verses@[kept as int].scripture@);
                assert(fits == (spaced_prefix(verses@, kept + 1).len() < adjusted_length));
            }
            if fits {
                scripture.append(" ");
                scripture.append(verses[kept].scripture.as_str());
                scripture_len = scripture_len + 1 + piece_len;
                kept = kept + 1;
            } else {
                done = true;
            }
        }
        proof {
            lemma_take_count_props(verses@, adjusted_length as int, 0);
            assert(kept as int == take_count(verses@, adjusted_length as int, 0));
        }
        let last_kept = if kept > 0 {
            &verses[kept - 1]
        } else {
            &verses[n - 1]
        };

        // cut the joined text at the last space inside the budget
        let s_len = scriptures.as_str().unicode_len();
        let mut cut: usize = adjusted_length;
        let mut found = false;
        let mut j: usize = 0;
        let bound = if adjusted_length < s_len {
            adjusted_length + 1
        } else {
            s_len
        };
        while j < bound
            invariant
                0 <= j <= bound,
                bound <= s_len,
                s_len == scriptures@.len(),
                bound == if adjusted_length + 1 < s_len {
                    adjusted_length + 1
                } else {
                    s_len as int
                },
                adjusted_length <= s_len,
                found ==> 0 <= cut < j && scriptures@[cut as int] == ' ' && forall|t: int|
                    cut < t < j ==> scriptures@[t] != ' ',
                !found ==> cut == adjusted_length && forall|t: int|
                    0 <= t < j ==> scriptures@[t] != ' ',
            decreases bound - j,
        {
            if scriptures.as_str().get_char(j) == ' ' {
                cut = j;
                found = true;
            }
            j = j + 1;
        }
        proof {
            lemma_last_space_props(scriptures@, adjusted_length as int);
            if found {
                assert(last_space_upto(scriptures@, adjusted_length as int) == Some(cut as int));
            } else {
                assert(last_space_upto(scriptures@, adjusted_length as int) is None);
            }
            assert(cut as int == break_point(scriptures@, adjusted_length as int));
        }
        let tail = scriptures.as_str().substring_char(cut, s_len);
        let remainder = trim_start(tail);
        proof {
            assert(tail@ =~= scriptures@.skip(cut as int));
        }

        // the abbreviated reference, re-ended at the last kept verse
        let shortened_reference = ref_line_exec(
            abbreviation.as_str(),
            start_verse,
            last_kept.verse,
            bible_name_to_use,
        );

        let mut truncated = scripture;
        truncated.append(" - ");
        truncated.append(shortened_reference.as_str());
        truncated.append(" !next to continue");
        proof {
            assert(truncated@ =~= spaced_prefix(verses@, kept as int) + " - "@ + ref_line(
                before_colon(verses@.last().abbreviation@),
                verses@[0].verse as int,
                kept_last(verses@, adjusted_length as int).verse as int,
                bible_name_to_use@,
            ) + " !next to continue"@);
        }
        ResponseOutput { truncated, remainder, last_verse: last_kept.reference.clone() }
    }
}

} // verus!
