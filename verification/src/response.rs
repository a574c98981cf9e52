//! Reading a language model's reply: the JSON block it holds, and the
//! achronons it proposes.

use crate::achronon::{views, Achronon, AchrononView};
use crate::bitmap::{bitmap_insert, bitmap_members, bitmap_new};
use roaring::RoaringBitmap;
use vstd::prelude::*;

verus! {

/// `pat` occurs in `s` at position `i`.
pub open spec fn occurs_at(s: Seq<char>, pat: Seq<char>, i: int) -> bool {
    &&& 0 <= i
    &&& i + pat.len() <= s.len()
    &&& s.subrange(i, i + pat.len()) == pat
}

/// `i` is the position of the leftmost occurrence of `pat` in `s`.
pub open spec fn is_first_occurrence(s: Seq<char>, pat: Seq<char>, i: int) -> bool {
    &&& occurs_at(s, pat, i)
    &&& forall|j: int| 0 <= j < i ==> !occurs_at(s, pat, j)
}

/// The position of the leftmost occurrence of `pat` in `s`, if it occurs.
pub open spec fn first_occurrence(s: Seq<char>, pat: Seq<char>) -> Option<int> {
    if exists|i: int| is_first_occurrence(s, pat, i) {
        Some(choose|i: int| is_first_occurrence(s, pat, i))
    } else {
        None
    }
}

/// The text of `s` before the first occurrence of `pat`, or all of `s`: the
/// first piece of `s` split at `pat`.
pub open spec fn split_first(s: Seq<char>, pat: Seq<char>) -> Seq<char> {
    match first_occurrence(s, pat) {
        Some(i) => s.subrange(0, i),
        None => s,
    }
}

/// The text of `s` between the first and the second occurrence of `pat` (or
/// the end): the second piece of `s` split at `pat`.
pub open spec fn split_second(s: Seq<char>, pat: Seq<char>) -> Seq<char>
    recommends
        first_occurrence(s, pat) is Some,
{
    let i = first_occurrence(s, pat).unwrap();
    split_first(s.subrange(i + pat.len(), s.len() as int), pat)
}

/// A model's reply with the JSON it holds cut out of a markdown fence: the
/// text inside the first fenced block marked `json`, else inside the first
/// fenced block, else the whole reply.
pub open spec fn clean_json(text: Seq<char>) -> Seq<char> {
    if first_occurrence(text, "```json"@) is Some {
        split_first(split_second(text, "```json"@), "```"@)
    } else if first_occurrence(text, "```"@) is Some {
        split_first(split_second(text, "```"@), "```"@)
    } else {
        text
    }
}

/// A leftmost occurrence is the one that `first_occurrence` gives.
pub proof fn lemma_first_unique(s: Seq<char>, pat: Seq<char>, i: int)
    requires
        is_first_occurrence(s, pat, i),
    ensures
        first_occurrence(s, pat) == Some(i),
{
    let k = choose|k: int| is_first_occurrence(s, pat, k);
    assert(is_first_occurrence(s, pat, k));
    if k < i {
        assert(!occurs_at(s, pat, k));
    }
    if i < k {
        assert(!occurs_at(s, pat, i));
    }
}

/// The characters of `s`, in order.
fn chars_of(s: &str) -> (v: Vec<char>)
    ensures
        v@ == s@,
{
    let n = s.unicode_len();
    let mut v: Vec<char> = Vec::new();
    let mut i: usize = 0;
    while i < n
        invariant
            n == s@.len(),
            i <= n,
            v@ == s@.subrange(0, i as int),
        decreases n - i,
    {
        v.push(s.get_char(i));
        assert(s@.subrange(0, i + 1) == s@.subrange(0, i as int).push(s@[i as int]));
        i += 1;
    }
    assert(s@.subrange(0, n as int) == s@);
    v
}

/// Whether `pat` occurs in `s` at position `i`.
fn occurs_at_exec(s: &Vec<char>, pat: &Vec<char>, i: usize) -> (r: bool)
    ensures
        r == occurs_at(s@, pat@, i as int),
{
    if i > s.len() || pat.len() > s.len() - i {
        return false;
    }
    let mut k: usize = 0;
    while k < pat.len()
        invariant
            i + pat.len() <= s.len(),
            k <= pat.len(),
            forall|m: int| 0 <= m < k ==> s@[i + m] == pat@[m],
        decreases pat.len() - k,
    {
        if s[i + k] != pat[k] {
            assert(s@.subrange(i as int, i + pat.len())[k as int] != pat@[k as int]);
            return false;
        }
        k += 1;
    }
    assert(s@.subrange(i as int, i + pat.len()) =~= pat@);
    true
}

/// The leftmost position at or after `start` where `pat` occurs in `s`.
fn find_from(s: &Vec<char>, pat: &Vec<char>, start: usize) -> (r: Option<usize>)
    requires
        start <= s.len(),
    ensures
        match r {
            Some(i) => start <= i && is_first_occurrence(
                s@.subrange(start as int, s@.len() as int),
                pat@,
                i - start,
            ),
            None => first_occurrence(s@.subrange(start as int, s@.len() as int), pat@) is None,
        },
{
    let ghost suffix = s@.subrange(start as int, s@.len() as int);
    let mut i: usize = start;
    loop
        invariant
            start <= i <= s.len(),
            suffix == s@.subrange(start as int, s@.len() as int),
            forall|j: int| 0 <= j < i - start ==> !occurs_at(suffix, pat@, j),
        ensures
            i == s.len(),
            forall|j: int| 0 <= j <= i - start ==> !occurs_at(suffix, pat@, j),
        decreases s.len() - i,
    {
        let hit = occurs_at_exec(s, pat, i);
        assert(occurs_at(s@, pat@, i as int) == occurs_at(suffix, pat@, i - start)) by {
            if i + pat@.len() <= s@.len() {
                assert(suffix.subrange(i - start, i - start + pat@.len()) == s@.subrange(
                    i as int,
                    i + pat@.len(),
                ));
            }
        }
        if hit {
            return Some(i);
        }
        if i == s.len() {
            break;
        }
        i += 1;
    }
    assert forall|j: int| #![auto] !is_first_occurrence(suffix, pat@, j) by {
        if 0 <= j <= i - start {
        } else if j > i - start {
            assert(!(j + pat@.len() <= suffix.len()));
        }
    }
    None
}

/// Cuts the JSON out of a model's reply: the text inside the first fenced
/// block marked `json`, else inside the first fenced block, else the whole
/// reply.
pub fn clean_json_block(text: &str) -> (r: String)
    ensures
        r@ == clean_json(text@),
{
    proof {
        reveal_strlit("```json");
        reveal_strlit("```");
    }
    let s = chars_of(text);
    let json_fence = chars_of("```json");
    let fence = chars_of("```");
    let ghost t = text@;
    proof {
        assert(s@.subrange(0, s@.len() as int) == t);
    }
    let (opening, used_json) = match find_from(&s, &json_fence, 0) {
        Some(i) => {
            proof {
                lemma_first_unique(t, "```json"@, i as int);
                assert(occurs_at(t, json_fence@, i as int));
                assert(t.len() == s.len());
                assert(i + json_fence@.len() <= s.len());
                assert(json_fence@.len() == json_fence.len());
            }
            (Some(i + json_fence.len()), true)
        },
        None => match find_from(&s, &fence, 0) {
            Some(i) => {
                proof {
                    lemma_first_unique(t, "```"@, i as int);
                    assert(occurs_at(t, fence@, i as int));
                }
                (Some(i + fence.len()), false)
            },
            None => (None, false),
        },
    };
    match opening {
        None => String::from_str(text),
        Some(from) => {
            let ghost used = if used_json { "```json"@ } else { "```"@ };
            let ghost rest = t.subrange(from as int, t.len() as int);
            assert(rest == t.subrange(first_occurrence(t, used).unwrap() + used.len(), t.len() as int));
            // The second piece ends at the next occurrence of the same fence.
            let close_same = if used_json {
                find_from(&s, &json_fence, from)
            } else {
                find_from(&s, &fence, from)
            };
            let piece_end = match close_same {
                Some(j) => {
                    proof {
                        lemma_first_unique(rest, used, j - from);
                    }
                    j
                },
                None => s.len(),
            };
            let ghost piece = t.subrange(from as int, piece_end as int);
            assert(piece == split_second(t, used));
            // Within that piece, the text runs up to the first plain fence.
            let piece_chars = chars_of(text.substring_char(from, piece_end));
            let end = match find_from(&piece_chars, &fence, 0) {
                Some(k) => {
                    proof {
                        assert(piece_chars@.subrange(0, piece_chars@.len() as int) == piece);
                        lemma_first_unique(piece, "```"@, k as int);
                    }
                    from + k
                },
                None => {
                    proof {
                        assert(piece_chars@.subrange(0, piece_chars@.len() as int) == piece);
                    }
                    piece_end
                },
            };
            let out = String::from_str(text.substring_char(from, end));
            assert(out@ == piece.subrange(0, end - from));
            out
        },
    }
}

/// A bitmap holding exactly the ids of `ids`.
pub fn bitmap_from_ids(ids: &Vec<u32>) -> (b: RoaringBitmap)
    ensures
        bitmap_members(b) == ids@.to_set(),
{
    let mut b = bitmap_new();
    let mut i: usize = 0;
    while i < ids.len()
        invariant
            i <= ids.len(),
            bitmap_members(b) == ids@.take(i as int).to_set(),
        decreases ids.len() - i,
    {
        bitmap_insert(&mut b, ids[i]);
        proof {
            assert(ids@.take(i + 1) == ids@.take(i as int).push(ids@[i as int]));
            ids@.take(i as int).lemma_push_to_set_commute(ids@[i as int]);
        }
        i += 1;
    }
    assert(ids@.take(ids.len() as int) == ids@);
    b
}

/// An achronon as a language model proposes it, with its id lists as plain
/// vectors.
pub struct AchrononTemplate {
    pub id: u32,
    pub antecedents: Vec<u32>,
    pub orthogonals: Vec<u32>,
    pub transformation_id: String,
    pub content: String,
    pub affected_subspace: Option<usize>,
}

/// The achronon that a template describes: the same fields, with each id
/// list taken as a set.
pub open spec fn template_view(t: AchrononTemplate) -> AchrononView {
    AchrononView {
        id: t.id,
        antecedents: t.antecedents@.to_set(),
        orthogonals: t.orthogonals@.to_set(),
        transformation_id: t.transformation_id@,
        content: t.content@,
        affected_subspace: t.affected_subspace,
    }
}

impl AchrononTemplate {
    /// The achronon this template describes.
    pub fn into_achronon(self) -> (a: Achronon)
        ensures
            a@ == template_view(self),
    {
        let antecedents = bitmap_from_ids(&self.antecedents);
        let orthogonals = bitmap_from_ids(&self.orthogonals);
        Achronon {
            id: self.id,
            antecedents,
            orthogonals,
            transformation_id: self.transformation_id,
            content: self.content,
            affected_subspace: self.affected_subspace,
        }
    }
}

/// The achronons that the templates describe, in order.
pub fn achronons_from_templates(templates: Vec<AchrononTemplate>) -> (r: Vec<Achronon>)
    ensures
        views(r@) == templates@.map_values(|t: AchrononTemplate| template_view(t)),
{
    let ghost ts = templates@;
    let mut out: Vec<Achronon> = Vec::new();
    let mut rest = templates;
    while rest.len() > 0
        invariant
            rest@ == ts.skip(out@.len() as int),
            out@.len() <= ts.len(),
            views(out@) == ts.take(out@.len() as int).map_values(|t: AchrononTemplate| template_view(t)),
        decreases rest.len(),
    {
        let k = out.len();
        let t = rest.remove(0);
        assert(t == ts[k as int]);
        assert(rest@ == ts.skip(k + 1));
        let a = t.into_achronon();
        let ghost old_out = out@;
        let ghost av = a@;
        out.push(a);
        proof {
            let f = |t: AchrononTemplate| template_view(t);
            assert(views(out@) =~= views(old_out).push(av));
            assert(ts.take(k + 1) =~= ts.take(k as int).push(ts[k as int]));
            assert(ts.take(k + 1).map_values(f) =~= ts.take(k as int).map_values(f).push(
                template_view(ts[k as int]),
            ));
        }
    }
    assert(ts.take(ts.len() as int) == ts);
    out
}

} // verus!
