use vstd::prelude::*;
use vstd::string::StrSliceExecFns;
use vstd::string::StringExecFns;
use crate::text::{str_eq, strs_view};
use crate::value::Object;

verus! {

/// How values are shown in the read-eval-print loop.
pub trait ReplDisplay {
    fn pretty_print(&self) -> String;
}

impl ReplDisplay for Object {
    fn pretty_print(&self) -> String {
        Object::pretty_print(self)
    }
}

/// A completion suggestion for the line editor.
#[derive(Debug)]
pub struct CommandHint(pub String);

impl CommandHint {
    /// The hint with its first `strip_chars` characters removed: what is
    /// left to type.
    pub fn suffix(&self, strip_chars: usize) -> (r: CommandHint)
        requires
            strip_chars <= self.0@.len(),
        ensures
            r.0@ == self.0@.subrange(strip_chars as int, self.0@.len() as int),
    {
        let len = self.0.as_str().unicode_len();
        let piece = self.0.as_str().substring_char(strip_chars, len);
        CommandHint(piece.to_owned())
    }
}

/// `s` begins with `prefix`.
pub open spec fn spec_starts_with(s: Seq<char>, prefix: Seq<char>) -> bool {
    s.len() >= prefix.len() && s.subrange(0, prefix.len() as int) == prefix
}

/// Whether a line begins with `prefix`.
pub fn starts_with(s: &str, prefix: &str) -> (r: bool)
    ensures
        r == spec_starts_with(s@, prefix@),
{
    let n = s.unicode_len();
    let pn = prefix.unicode_len();
    if pn > n {
        return false;
    }
    let head = s.substring_char(0, pn);
    str_eq(head, prefix)
}

/// Lines that do not begin with a block-starting keyword are auto-closed
/// with a semicolon by the read-eval-print loop.
pub open spec fn spec_should_append_semicolon(s: Seq<char>) -> bool {
    !(spec_starts_with(s, "struct"@) || spec_starts_with(s, "trait"@) || spec_starts_with(
        s,
        "fn"@,
    ) || spec_starts_with(s, "pub"@) || spec_starts_with(s, "local"@) || spec_starts_with(
        s,
        "impl"@,
    ) || spec_starts_with(s, "return"@))
}

/// Should the loop append a semicolon to this input line?
pub fn should_append_semicolon(i: &str) -> (r: bool)
    ensures
        r == spec_should_append_semicolon(i@),
{
    !(starts_with(i, "struct") || starts_with(i, "trait") || starts_with(i, "fn") || starts_with(
        i,
        "pub",
    ) || starts_with(i, "local") || starts_with(i, "impl") || starts_with(i, "return"))
}

/// A character that ends the snippet being completed.
pub open spec fn spec_is_reset_char(c: char) -> bool {
    c == '(' || c == ',' || c == ';' || c == ' ' || c == '.'
}

/// The snippet under completion: the suffix of the line after its last
/// snippet-ending character.
pub open spec fn spec_snippet(s: Seq<char>) -> Seq<char>
    decreases s.len(),
{
    if s.len() == 0 {
        Seq::empty()
    } else if spec_is_reset_char(s.last()) {
        Seq::empty()
    } else {
        spec_snippet(s.drop_last()).push(s.last())
    }
}

/// The snippet at the end of an input line, and how many characters of the
/// line precede it.
pub fn get_snippet_from_line(line: &str) -> (r: (String, usize))
    ensures
        r.0@ == spec_snippet(line@),
        r.1 == line@.len() - spec_snippet(line@).len(),
{
    let n = line.unicode_len();
    let mut buf = String::new();
    let mut i: usize = 0;
    while i < n
        invariant
            n == line@.len(),
            0 <= i <= n,
            buf@ == spec_snippet(line@.subrange(0, i as int)),
            buf@.len() <= i,
        decreases n - i,
    {
        let c = line.get_char(i);
        proof {
            assert(line@.subrange(0, i + 1).drop_last() =~= line@.subrange(0, i as int));
            assert(line@.subrange(0, i + 1).last() == line@[i as int]);
        }
        if c == '(' || c == ',' || c == ';' || c == ' ' || c == '.' {
            buf = String::new();
        } else {
            let piece = line.substring_char(i, i + 1);
            proof {
                assert(piece@ =~= seq![line@[i as int]]);
            }
            buf.append(piece);
            proof {
                assert(buf@ =~= spec_snippet(line@.subrange(0, i + 1)));
            }
        }
        i += 1;
    }
    proof {
        assert(line@.subrange(0, n as int) =~= line@);
    }
    let cut = n - buf.as_str().unicode_len();
    (buf, cut)
}

/// How far a candidate strays from the line: the positions, over the
/// shorter of the two, where their characters differ.
pub open spec fn spec_mismatch(a: Seq<char>, b: Seq<char>) -> int
    decreases a.len(),
{
    if a.len() == 0 || b.len() == 0 {
        0
    } else {
        (if a[0] == b[0] {
            0int
        } else {
            1int
        }) + spec_mismatch(a.drop_first(), b.drop_first())
    }
}

fn mismatch_count(a: &str, b: &str) -> (r: usize)
    ensures
        r == spec_mismatch(a@, b@),
        r <= a@.len(),
{
    let an = a.unicode_len();
    let bn = b.unicode_len();
    let n = if an < bn {
        an
    } else {
        bn
    };
    let mut count: usize = 0;
    let mut i: usize = 0;
    proof {
        assert(a@.subrange(0, an as int) =~= a@);
        assert(b@.subrange(0, bn as int) =~= b@);
    }
    while i < n
        invariant
            an == a@.len(),
            bn == b@.len(),
            n == if an < bn {
                an
            } else {
                bn
            },
            0 <= i <= n,
            count <= i,
            count == spec_mismatch(a@, b@) - spec_mismatch(
                a@.subrange(i as int, an as int),
                b@.subrange(i as int, bn as int),
            ),
        decreases n - i,
    {
        proof {
            let ra = a@.subrange(i as int, an as int);
            let rb = b@.subrange(i as int, bn as int);
            assert(ra.drop_first() =~= a@.subrange(i + 1, an as int));
            assert(rb.drop_first() =~= b@.subrange(i + 1, bn as int));
            assert(ra[0] == a@[i as int]);
            assert(rb[0] == b@[i as int]);
        }
        if a.get_char(i) != b.get_char(i) {
            count += 1;
        }
        i += 1;
    }
    proof {
        if an <= bn {
            assert(a@.subrange(n as int, an as int) =~= Seq::<char>::empty());
            assert(spec_mismatch(
                a@.subrange(n as int, an as int),
                b@.subrange(n as int, bn as int),
            ) == 0);
        } else {
            assert(b@.subrange(n as int, bn as int) =~= Seq::<char>::empty());
            lemma_mismatch_empty_right(a@.subrange(n as int, an as int));
            assert(spec_mismatch(
                a@.subrange(n as int, an as int),
                b@.subrange(n as int, bn as int),
            ) == 0);
        }
        assert(spec_mismatch(a@, b@) <= a@.len()) by {
            lemma_mismatch_bound(a@, b@);
        }
    }
    count
}

/// A mismatch count never exceeds the candidate's length.
proof fn lemma_mismatch_bound(a: Seq<char>, b: Seq<char>)
    ensures
        0 <= spec_mismatch(a, b) <= a.len(),
    decreases a.len(),
{
    if a.len() > 0 && b.len() > 0 {
        lemma_mismatch_bound(a.drop_first(), b.drop_first());
    }
}

/// Against an empty line every position agrees vacuously.
proof fn lemma_mismatch_empty_right(a: Seq<char>)
    ensures
        spec_mismatch(a, Seq::<char>::empty()) == 0,
{
}

/// An ASCII space character, for judging an all-blank snippet.
pub open spec fn spec_is_space(c: char) -> bool {
    c == ' ' || c == '\t' || c == '\n' || c == '\r'
}

/// A snippet of nothing but blanks offers no completion.
pub open spec fn spec_all_space(s: Seq<char>) -> bool {
    forall|i: int| 0 <= i < s.len() ==> spec_is_space(s[i])
}

/// The candidate the hinter offers, among the first `n`: the earliest of
/// those that begin with the snippet and stray least from the line.
pub open spec fn spec_best_candidate(
    cands: Seq<Seq<char>>,
    snip: Seq<char>,
    line: Seq<char>,
    n: int,
) -> Option<int>
    decreases n,
{
    if n <= 0 {
        None
    } else {
        let prev = spec_best_candidate(cands, snip, line, n - 1);
        if !spec_starts_with(cands[n - 1], snip) {
            prev
        } else {
            match prev {
                None => Some(n - 1),
                Some(j) => if spec_mismatch(cands[n - 1], line) < spec_mismatch(cands[j], line) {
                    Some(n - 1)
                } else {
                    Some(j)
                },
            }
        }
    }
}

/// The completion the line editor shows: among the candidates that begin
/// with the snippet under the cursor, the earliest straying least from the
/// line, cut down to what is left to type. No hint is offered at the start
/// of a line, over a blank snippet, without a fitting candidate, or where
/// the cursor leaves nothing of the candidate to cut.
pub fn hint_for_line(line: &str, pos: usize, candidates: &Vec<String>) -> (r: Option<CommandHint>)
    ensures
        ({
            let snip = spec_snippet(line@);
            let cut = line@.len() - snip.len();
            let best = spec_best_candidate(
                strs_view(candidates@),
                snip,
                line@,
                candidates@.len() as int,
            );
            match r {
                Some(h) => {
                    &&& pos != 0
                    &&& !spec_all_space(snip)
                    &&& best matches Some(j) && cut <= pos && pos - cut
                        <= candidates@[j]@.len() && h.0@ == candidates@[j]@.subrange(
                        pos - cut,
                        candidates@[j]@.len() as int,
                    )
                },
                None => pos == 0 || spec_all_space(snip) || best is None || (best matches Some(j)
                    && (pos < cut || pos - cut > candidates@[j]@.len())),
            }
        }),
{
    let (snip, cut) = get_snippet_from_line(line);
    if pos == 0 {
        return None;
    }
    let mut all_space = true;
    let snip_len = snip.as_str().unicode_len();
    let mut k: usize = 0;
    while k < snip_len
        invariant
            snip_len == snip@.len(),
            0 <= k <= snip_len,
            all_space <==> (forall|t: int| 0 <= t < k ==> spec_is_space(snip@[t])),
        decreases snip_len - k,
    {
        let c = snip.as_str().get_char(k);
        if !(c == ' ' || c == '\t' || c == '\n' || c == '\r') {
            all_space = false;
            proof {
                assert(!spec_is_space(snip@[k as int]));
            }
        }
        k += 1;
    }
    if all_space {
        proof {
            assert(spec_all_space(snip@));
        }
        return None;
    }
    let ghost cands = strs_view(candidates@);
    let mut best: Option<usize> = None;
    let mut best_count: usize = 0;
    let mut i: usize = 0;
    while i < candidates.len()
        invariant
            cands == strs_view(candidates@),
            snip@ == spec_snippet(line@),
            0 <= i <= candidates@.len(),
            spec_best_candidate(cands, snip@, line@, i as int) == (match best {
                Some(j) => Some(j as int),
                None => None,
            }),
            best matches Some(j) ==> j < i && best_count == spec_mismatch(
                candidates@[j as int]@,
                line@,
            ),
        decreases candidates@.len() - i,
    {
        if starts_with(candidates[i].as_str(), snip.as_str()) {
            let c = mismatch_count(candidates[i].as_str(), line);
            let better = match best {
                None => true,
                Some(_) => c < best_count,
            };
            if better {
                best = Some(i);
                best_count = c;
            }
        }
        i += 1;
    }
    match best {
        Some(j) => {
            let hint = &candidates[j];
            let hlen = hint.as_str().unicode_len();
            if pos < cut || pos - cut > hlen {
                return None;
            }
            let piece = hint.as_str().substring_char(pos - cut, hlen);
            Some(CommandHint(piece.to_owned()))
        },
        None => None,
    }
}

} // verus!
