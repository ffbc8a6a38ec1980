//! Post-processing for raw speech-recognition transcripts.
//!
//! Cleans up known recognizer artifacts, trims whitespace, collapses runs of
//! spaces, and optionally capitalizes the first letter.
use vstd::prelude::*;
use crate::text::{
    chars_of, push_chars, trim, trim_chars, is_trimmed, lemma_trim_is_trimmed,
    lemma_trim_of_trimmed,
};

verus! {

/// The known hallucination / noise artifacts, removed in this order.
pub open spec fn artifacts() -> Seq<Seq<char>> {
    seq![
        "[BLANK_AUDIO]"@,
        "(music)"@,
        "(Music)"@,
        "[Music]"@,
        "[MUSIC]"@,
        "(crowd noise)"@,
        "(background noise)"@,
        "(silence)"@,
        "[inaudible]"@,
        "[Inaudible]"@,
    ]
}

/// `s` with every occurrence of `pat` removed, scanning left to right for
/// non-overlapping occurrences, as `str::replace(pat, "")` does.
pub open spec fn remove_all(s: Seq<char>, pat: Seq<char>) -> Seq<char>
    decreases s.len(),
{
    if pat.len() == 0 || s.len() < pat.len() {
        s
    } else if s.take(pat.len() as int) == pat {
        remove_all(s.skip(pat.len() as int), pat)
    } else {
        seq![s[0]] + remove_all(s.drop_first(), pat)
    }
}

/// `s` after removing the first `k` artifacts, one after the other.
pub open spec fn strip_artifacts(s: Seq<char>, k: nat) -> Seq<char>
    decreases k,
{
    if k == 0 {
        s
    } else {
        remove_all(strip_artifacts(s, (k - 1) as nat), artifacts()[k - 1])
    }
}

/// `s` with every run of spaces shortened to a single space.
pub open spec fn collapse_spaces(s: Seq<char>) -> Seq<char>
    decreases s.len(),
{
    if s.len() < 2 {
        s
    } else if s[0] == ' ' && s[1] == ' ' {
        collapse_spaces(s.drop_first())
    } else {
        seq![s[0]] + collapse_spaces(s.drop_first())
    }
}

/// What `char::to_uppercase` yields for `c`: its Unicode uppercase mapping,
/// one or more characters.
pub uninterp spec fn char_uppercase(c: char) -> Seq<char>;

/// The uppercase mapping of `c`, as `char::to_uppercase` yields it.
/// Claimed: the result is the named mapping of `c`; an ASCII lowercase letter
/// maps to the matching capital letter, and any other ASCII character maps to
/// itself.  Nothing is claimed of the mapping beyond ASCII.
#[verifier::external_body]
fn to_uppercase(c: char) -> (up: Vec<char>)
    ensures
        up@ == char_uppercase(c),
        'a' <= c <= 'z' ==> up@ == seq![((c as u32) - 32) as char],
        (c as u32) < 128 && !('a' <= c <= 'z') ==> up@ == seq![c],
{
    c.to_uppercase().collect()
}

/// The text after trimming, artifact removal, re-trimming and collapsing
/// of spaces: the transcript before capitalization.
pub open spec fn cleaned_text(raw: Seq<char>) -> Seq<char> {
    collapse_spaces(trim(strip_artifacts(trim(raw), 10)))
}

/// What `clean` returns.
pub open spec fn clean_spec(raw: Seq<char>, capitalize: bool) -> Seq<char> {
    let t = cleaned_text(raw);
    if capitalize {
        capitalized(t)
    } else {
        t
    }
}

/// `t` with its first character replaced by its uppercase mapping.
pub open spec fn capitalized(t: Seq<char>) -> Seq<char> {
    if t.len() > 0 {
        char_uppercase(t[0]) + t.drop_first()
    } else {
        t
    }
}

/// `t` with an ASCII lowercase first letter replaced by its capital.
pub open spec fn ascii_capitalized(t: Seq<char>) -> Seq<char> {
    if t.len() > 0 && 'a' <= t[0] <= 'z' {
        seq![((t[0] as u32) - 32) as char] + t.drop_first()
    } else {
        t
    }
}

/// `t` is empty or starts with an ASCII character.
pub open spec fn starts_ascii(t: Seq<char>) -> bool {
    t.len() > 0 ==> (t[0] as u32) < 128
}

/// The characters of `text` with the first one replaced by its uppercase
/// mapping; for an ASCII first character that is its capital letter (or the
/// character itself when it is not a lowercase letter).
pub fn capitalize_first(text: &[char]) -> (out: Vec<char>)
    ensures
        out@ == capitalized(text@),
        starts_ascii(text@) ==> out@ == ascii_capitalized(text@),
{
    if text.len() == 0 {
        return Vec::new();
    }
    let mut out = to_uppercase(text[0]);
    let ghost head = out@;
    let mut i: usize = 1;
    while i < text.len()
        invariant
            1 <= i <= text@.len(),
            out@ == head + text@.subrange(1, i as int),
        decreases text@.len() - i,
    {
        out.push(text[i]);
        assert(text@.subrange(1, i as int).push(text@[i as int]) =~= text@.subrange(1, i + 1));
        i = i + 1;
    }
    assert(text@.subrange(1, text@.len() as int) =~= text@.drop_first());
    out
}

/// Whether `s` holds two spaces in a row.
pub open spec fn has_double_space(s: Seq<char>) -> bool {
    exists|i: int| 0 <= i < s.len() - 1 && #[trigger] s[i] == ' ' && s[i + 1] == ' '
}

/// Whether `pat` occurs in `s` at position `i`.
pub open spec fn occurs_at(s: Seq<char>, pat: Seq<char>, i: int) -> bool {
    0 <= i && i + pat.len() <= s.len() && s.subrange(i, i + pat.len()) == pat
}

/// Whether `pat` occurs anywhere in `s`.
pub open spec fn occurs_in(s: Seq<char>, pat: Seq<char>) -> bool {
    exists|i: int| occurs_at(s, pat, i)
}

proof fn lemma_artifacts_nonempty(k: int)
    requires
        0 <= k < 10,
    ensures
        artifacts()[k].len() > 0,
        artifacts().len() == 10,
{
    reveal_strlit("[BLANK_AUDIO]");
    reveal_strlit("(music)");
    reveal_strlit("(Music)");
    reveal_strlit("[Music]");
    reveal_strlit("[MUSIC]");
    reveal_strlit("(crowd noise)");
    reveal_strlit("(background noise)");
    reveal_strlit("(silence)");
    reveal_strlit("[inaudible]");
    reveal_strlit("[Inaudible]");
}

/// The artifacts, as vectors of characters.
fn artifact_list() -> (v: Vec<Vec<char>>)
    ensures
        v@.len() == 10,
        forall|k: int| 0 <= k < 10 ==> (#[trigger] v@[k])@ == artifacts()[k],
{
    let mut v: Vec<Vec<char>> = Vec::new();
    v.push(chars_of("[BLANK_AUDIO]"));
    v.push(chars_of("(music)"));
    v.push(chars_of("(Music)"));
    v.push(chars_of("[Music]"));
    v.push(chars_of("[MUSIC]"));
    v.push(chars_of("(crowd noise)"));
    v.push(chars_of("(background noise)"));
    v.push(chars_of("(silence)"));
    v.push(chars_of("[inaudible]"));
    v.push(chars_of("[Inaudible]"));
    v
}

/// Whether `pat` occurs in `s` starting at index `i`.
fn matches_at(s: &[char], i: usize, pat: &[char]) -> (b: bool)
    requires
        i + pat@.len() <= s@.len(),
    ensures
        b == (s@.subrange(i as int, i + pat@.len()) == pat@),
{
    let mut j: usize = 0;
    while j < pat.len()
        invariant
            j <= pat@.len(),
            i + pat@.len() <= s@.len(),
            s@.len() == s.len(),
            forall|k: int| 0 <= k < j ==> s@[i + k] == pat@[k],
        decreases pat@.len() - j,
    {
        if s[i + j] != pat[j] {
            assert(s@.subrange(i as int, i + pat@.len())[j as int] != pat@[j as int]);
            return false;
        }
        j = j + 1;
    }
    assert(s@.subrange(i as int, i + pat@.len()) =~= pat@);
    true
}

/// `s` with every left-to-right non-overlapping occurrence of `pat` removed.
pub fn remove_pattern(s: &[char], pat: &[char]) -> (t: Vec<char>)
    requires
        pat@.len() > 0,
    ensures
        t@ == remove_all(s@, pat@),
{
    let n = s.len();
    let m = pat.len();
    let mut t: Vec<char> = Vec::new();
    let mut i: usize = 0;
    assert(s@.skip(0) =~= s@);
    assert(t@ + remove_all(s@, pat@) =~= remove_all(s@, pat@));
    while i < n
        invariant
            n == s@.len(),
            m == pat@.len(),
            m > 0,
            i <= n,
            t@ + remove_all(s@.skip(i as int), pat@) == remove_all(s@, pat@),
        decreases n - i,
    {
        let rest = Ghost(s@.skip(i as int));
        if m <= n - i && matches_at(s, i, pat) {
            assert(rest@.take(m as int) =~= s@.subrange(i as int, i + m));
            assert(rest@.skip(m as int) =~= s@.skip(i + m));
            i = i + m;
        } else {
            if m <= n - i {
                assert(rest@.take(m as int) =~= s@.subrange(i as int, i + m));
            }
            assert(rest@.drop_first() =~= s@.skip(i + 1));
            assert((t@ + seq![s@[i as int]]) + remove_all(s@.skip(i + 1), pat@) =~= t@ + (seq![
                s@[i as int],
            ] + remove_all(s@.skip(i + 1), pat@)));
            t.push(s[i]);
            i = i + 1;
        }
    }
    assert(s@.skip(n as int) =~= Seq::<char>::empty());
    assert(t@ + Seq::<char>::empty() =~= t@);
    t
}

/// `s` with every run of spaces shortened to one space.
pub fn collapse_runs(s: &[char]) -> (t: Vec<char>)
    ensures
        t@ == collapse_spaces(s@),
{
    let n = s.len();
    let mut t: Vec<char> = Vec::new();
    let mut i: usize = 0;
    assert(s@.skip(0) =~= s@);
    assert(t@ + collapse_spaces(s@) =~= collapse_spaces(s@));
    while i < n
        invariant
            n == s@.len(),
            i <= n,
            t@ + collapse_spaces(s@.skip(i as int)) == collapse_spaces(s@),
        decreases n - i,
    {
        let rest = Ghost(s@.skip(i as int));
        assert(rest@.drop_first() =~= s@.skip(i + 1));
        if i + 1 < n && s[i] == ' ' && s[i + 1] == ' ' {
        } else {
            if i + 1 == n {
                assert(rest@ =~= seq![s@[i as int]]);
                assert(s@.skip(i + 1) =~= Seq::<char>::empty());
            }
            assert((t@ + seq![s@[i as int]]) + collapse_spaces(s@.skip(i + 1)) =~= t@ + (seq![
                s@[i as int],
            ] + collapse_spaces(s@.skip(i + 1))));
            t.push(s[i]);
        }
        i = i + 1;
    }
    assert(s@.skip(n as int) =~= Seq::<char>::empty());
    assert(t@ + Seq::<char>::empty() =~= t@);
    t
}


proof fn lemma_collapse(s: Seq<char>)
    ensures
        collapse_spaces(s).len() <= s.len(),
        s.len() > 0 ==> collapse_spaces(s).len() > 0 && collapse_spaces(s)[0] == s[0]
            && collapse_spaces(s).last() == s.last(),
        !has_double_space(collapse_spaces(s)),
        !has_double_space(s) ==> collapse_spaces(s) == s,
    decreases s.len(),
{
    if s.len() >= 2 {
        let tail = s.drop_first();
        lemma_collapse(tail);
        let c = collapse_spaces(tail);
        if s[0] == ' ' && s[1] == ' ' {
            assert(has_double_space(s)) by {
                assert(s[0int] == ' ' && s[0int + 1] == ' ');
            }
        } else {
            let r = seq![s[0]] + c;
            assert(r == collapse_spaces(s));
            assert(r.last() == c.last());
            assert(r[0] == s[0]);
            assert forall|i: int| 0 <= i < r.len() - 1 && #[trigger] r[i] == ' ' implies r[i + 1]
                != ' ' by {
                if i > 0 {
                    assert(r[i] == c[i - 1]);
                    assert(r[i + 1] == c[i]);
                    if c[i] == ' ' {
                        assert(c[i - 1] == ' ' && c[(i - 1) + 1] == ' ');
                    }
                } else {
                    assert(r[1] == c[0]);
                    assert(c[0] == tail[0]);
                }
            }
            if !has_double_space(s) {
                assert forall|i: int| 0 <= i < tail.len() - 1 && #[trigger] tail[i] == ' '
                    implies tail[i + 1] != ' ' by {
                    assert(s[i + 1] == tail[i]);
                    assert(s[(i + 1) + 1] == tail[i + 1]);
                }
                assert(r =~= s);
            }
        }
    } else if s.len() == 1 {
        assert(!has_double_space(s));
    } else {
        assert(!has_double_space(s));
    }
}

proof fn lemma_remove_all(s: Seq<char>, pat: Seq<char>)
    requires
        pat.len() > 0,
    ensures
        remove_all(s, pat).len() <= s.len(),
        !occurs_in(s, pat) ==> remove_all(s, pat) == s,
    decreases s.len(),
{
    if s.len() >= pat.len() {
        if s.take(pat.len() as int) == pat {
            lemma_remove_all(s.skip(pat.len() as int), pat);
            assert(s.subrange(0, pat.len() as int) =~= s.take(pat.len() as int));
            assert(occurs_at(s, pat, 0));
        } else {
            let tail = s.drop_first();
            lemma_remove_all(tail, pat);
            if !occurs_in(s, pat) {
                assert forall|i: int| !occurs_at(tail, pat, i) by {
                    if occurs_at(tail, pat, i) {
                        assert(tail.subrange(i, i + pat.len()) =~= s.subrange(
                            i + 1,
                            i + 1 + pat.len(),
                        ));
                        assert(occurs_at(s, pat, i + 1));
                    }
                }
                assert(seq![s[0]] + tail =~= s);
            }
        }
    }
}

/// Removal keeps going after a match: removing `pat` from `pat` followed by
/// `x` is removing it from `x`.
pub proof fn lemma_remove_leading_occurrence(pat: Seq<char>, x: Seq<char>)
    requires
        pat.len() > 0,
    ensures
        remove_all(pat + x, pat) == remove_all(x, pat),
{
    let s = pat + x;
    assert(s.take(pat.len() as int) =~= pat);
    assert(s.skip(pat.len() as int) =~= x);
}

/// Text without `pat` is kept whole.
pub proof fn lemma_remove_absent(s: Seq<char>, pat: Seq<char>)
    requires
        pat.len() > 0,
        !occurs_in(s, pat),
    ensures
        remove_all(s, pat) == s,
{
    lemma_remove_all(s, pat);
}

/// Every occurrence is removed, not only the first: when `pat` is found
/// first right after `a` (no occurrence of `pat` in `a + pat` starts inside
/// `a`), removing it from `a + pat + b` keeps `a` and goes on removing in
/// `b`.  So with `a` and `b` free of `pat`, `a + pat + b + pat + c` loses
/// both copies.
pub proof fn lemma_remove_every_occurrence(a: Seq<char>, pat: Seq<char>, b: Seq<char>)
    requires
        pat.len() > 0,
        forall|i: int| 0 <= i < a.len() ==> !occurs_at(a + pat, pat, i),
    ensures
        remove_all(a + pat + b, pat) == a + remove_all(b, pat),
    decreases a.len(),
{
    let m = pat.len() as int;
    let s = a + pat + b;
    if a.len() == 0 {
        assert(a + pat + b =~= pat + b);
        lemma_remove_leading_occurrence(pat, b);
        assert(a + remove_all(b, pat) =~= remove_all(b, pat));
    } else {
        let ap = a + pat;
        assert(!occurs_at(ap, pat, 0));
        assert(s.take(m) =~= ap.subrange(0, m));
        assert(s.take(m) != pat);
        let a2 = a.drop_first();
        assert forall|i: int| 0 <= i < a2.len() implies !occurs_at(a2 + pat, pat, i) by {
            assert(!occurs_at(ap, pat, i + 1));
            assert((a2 + pat).subrange(i, i + m) =~= ap.subrange(i + 1, i + 1 + m));
        }
        lemma_remove_every_occurrence(a2, pat, b);
        assert(s.drop_first() =~= a2 + pat + b);
        assert(seq![s[0]] + (a2 + remove_all(b, pat)) =~= a + remove_all(b, pat));
    }
}

proof fn lemma_strip_artifacts(s: Seq<char>, k: nat)
    requires
        k <= 10,
    ensures
        strip_artifacts(s, k).len() <= s.len(),
        (forall|j: int| 0 <= j < k ==> !occurs_in(s, #[trigger] artifacts()[j]))
            ==> strip_artifacts(s, k) == s,
    decreases k,
{
    if k > 0 {
        lemma_strip_artifacts(s, (k - 1) as nat);
        lemma_artifacts_nonempty(k - 1);
        lemma_remove_all(strip_artifacts(s, (k - 1) as nat), artifacts()[k - 1]);
    }
}

/// A cleaned transcript (without capitalization) has no leading or trailing
/// whitespace.
pub proof fn lemma_clean_is_trimmed(raw: Seq<char>)
    ensures
        is_trimmed(clean_spec(raw, false)),
{
    let t = trim(strip_artifacts(trim(raw), 10));
    lemma_trim_is_trimmed(strip_artifacts(trim(raw), 10));
    lemma_collapse(t);
}

/// A cleaned transcript (without capitalization) never holds two spaces in
/// a row.
pub proof fn lemma_clean_no_double_space(raw: Seq<char>)
    ensures
        !has_double_space(clean_spec(raw, false)),
{
    lemma_collapse(trim(strip_artifacts(trim(raw), 10)));
}

/// Cleaning never makes a transcript longer; the empty transcript stays
/// empty.
pub proof fn lemma_clean_not_longer(raw: Seq<char>)
    ensures
        clean_spec(raw, false).len() <= raw.len(),
        raw.len() == 0 ==> clean_spec(raw, false).len() == 0 && clean_spec(raw, true).len() == 0,
{
    lemma_trim_is_trimmed(raw);
    lemma_strip_artifacts(trim(raw), 10);
    lemma_trim_is_trimmed(strip_artifacts(trim(raw), 10));
    lemma_collapse(trim(strip_artifacts(trim(raw), 10)));
}

/// Capitalization touches only the first character: it replaces that
/// character by its uppercase mapping and keeps the rest.
pub proof fn lemma_clean_capitalize(raw: Seq<char>)
    ensures
        clean_spec(raw, false).len() == 0 ==> clean_spec(raw, true).len() == 0,
        clean_spec(raw, false).len() > 0 ==> clean_spec(raw, true) == char_uppercase(
            clean_spec(raw, false)[0],
        ) + clean_spec(raw, false).drop_first(),
{
}

/// Text that is already clean (trimmed, no double spaces, no artifact)
/// passes through unchanged.
pub proof fn lemma_clean_keeps_clean_text(raw: Seq<char>)
    requires
        is_trimmed(raw),
        !has_double_space(raw),
        forall|k: int| 0 <= k < 10 ==> !occurs_in(raw, #[trigger] artifacts()[k]),
    ensures
        clean_spec(raw, false) == raw,
{
    lemma_trim_of_trimmed(raw);
    lemma_strip_artifacts(raw, 10);
    lemma_collapse(raw);
}


/// Clean up a raw transcript:
/// 1. strip surrounding whitespace;
/// 2. remove the known artifacts, in order, then strip again;
/// 3. shorten every run of spaces to one space;
/// 4. if `capitalize` is true, uppercase the first character.
pub fn clean(raw: &str, capitalize: bool) -> (out: String)
    ensures
        out@ == clean_spec(raw@, capitalize),
        capitalize && starts_ascii(cleaned_text(raw@)) ==> out@ == ascii_capitalized(
            cleaned_text(raw@),
        ),
{
    let chars = chars_of(raw);
    let mut text = trim_chars(chars.as_slice());
    let arts = artifact_list();
    let ghost start = text@;
    let mut k: usize = 0;
    while k < 10
        invariant
            k <= 10,
            arts@.len() == 10,
            forall|j: int| 0 <= j < 10 ==> (#[trigger] arts@[j])@ == artifacts()[j],
            text@ == strip_artifacts(start, k as nat),
        decreases 10 - k,
    {
        proof {
            lemma_artifacts_nonempty(k as int);
        }
        let pat = &arts[k];
        text = remove_pattern(text.as_slice(), pat.as_slice());
        k = k + 1;
    }
    let text = trim_chars(text.as_slice());
    let text = collapse_runs(text.as_slice());
    let mut out = String::new();
    if capitalize {
        let cap = capitalize_first(text.as_slice());
        push_chars(&mut out, cap.as_slice());
    } else {
        push_chars(&mut out, text.as_slice());
    }
    out
}

} // verus!
