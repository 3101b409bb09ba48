//! Docstring parsing: a documentation block becomes a free-text description
//! plus a mapping from parameter name to per-parameter description.
//!
//! A line whose first whitespace-separated token is `param` is a parameter-tag
//! line: `param <name>: <text>`. The name may carry trailing colons, which are
//! removed, and a single leading underscore, which is also removed so that a
//! doc line may tag an underscore-prefixed parameter by its bare name. A tag
//! line that lacks a name or text is ignored entirely. Every other line
//! contributes to the free-text description.

use vstd::prelude::*;

use crate::text::find_blank_from;
use crate::text::find_nonblank_from;
use crate::text::lines_of;
use crate::text::str_views;
use crate::text::string_views;
use crate::text::strip_leading_underscore;
use crate::text::strip_trailing_colons;
use crate::text::trimmed;
use crate::text::find_blank;
use crate::text::find_nonblank;
use crate::text::split_lines;
use crate::text::str_eq;
use crate::text::strip_colons;
use crate::text::strip_underscore;
use crate::text::trim_str;

verus! {

/// The token that marks a parameter-tag line.
pub open spec fn param_marker() -> Seq<char> {
    seq!['p', 'a', 'r', 'a', 'm']
}

/// Whether trimmed line `l` is a parameter-tag line: its first token is `param`.
pub open spec fn is_tag_line(l: Seq<char>) -> bool {
    l.take(find_blank_from(l, 0)) == param_marker()
}

/// Start of the name token on tag line `l`.
pub open spec fn tag_name_start(l: Seq<char>) -> int {
    find_nonblank_from(l, find_blank_from(l, 0))
}

/// End of the name token on tag line `l`.
pub open spec fn tag_name_end(l: Seq<char>) -> int {
    find_blank_from(l, tag_name_start(l))
}

/// The parameter name on tag line `l`: the second token, without trailing
/// colons and without a single leading underscore.
pub open spec fn tag_name(l: Seq<char>) -> Seq<char> {
    strip_leading_underscore(strip_trailing_colons(l.subrange(tag_name_start(l), tag_name_end(l))))
}

/// The description text on tag line `l`: everything after the name token.
pub open spec fn tag_text(l: Seq<char>) -> Seq<char> {
    trimmed(l.subrange(tag_name_end(l), l.len() as int))
}

/// A tag line is well formed when it yields a non-empty name and text.
pub open spec fn tag_ok(l: Seq<char>) -> bool {
    is_tag_line(l) && tag_name(l).len() > 0 && tag_text(l).len() > 0
}

/// The parameter descriptions collected from `lines`, later lines winning.
pub open spec fn param_docs_of(lines: Seq<Seq<char>>) -> Map<Seq<char>, Seq<char>>
    decreases lines.len(),
{
    if lines.len() == 0 {
        Map::empty()
    } else {
        let m = param_docs_of(lines.drop_last());
        let t = trimmed(lines.last());
        if tag_ok(t) {
            m.insert(tag_name(t), tag_text(t))
        } else {
            m
        }
    }
}

/// The free-text description accumulated from `lines`: each trimmed non-tag
/// line followed by a newline.
pub open spec fn desc_acc(lines: Seq<Seq<char>>) -> Seq<char>
    decreases lines.len(),
{
    if lines.len() == 0 {
        Seq::empty()
    } else {
        let d = desc_acc(lines.drop_last());
        let t = trimmed(lines.last());
        if is_tag_line(t) {
            d
        } else {
            d + t + seq!['\n']
        }
    }
}

/// The description that parsing a whole docstring yields.
pub open spec fn spec_description(s: Seq<char>) -> Seq<char> {
    trimmed(desc_acc(lines_of(s)))
}

/// The parameter descriptions that parsing a whole docstring yields.
pub open spec fn spec_param_docs(s: Seq<char>) -> Map<Seq<char>, Seq<char>> {
    param_docs_of(lines_of(s))
}

/// An insertion-ordered collection of parameter descriptions, viewed as a map
/// from parameter name to description text; a later insertion for the same
/// name wins.
pub struct ParamDocs {
    entries: Vec<(String, String)>,
}

/// The map that a sequence of key-value insertions builds up.
pub open spec fn map_of(kvs: Seq<(Seq<char>, Seq<char>)>) -> Map<Seq<char>, Seq<char>>
    decreases kvs.len(),
{
    if kvs.len() == 0 {
        Map::empty()
    } else {
        map_of(kvs.drop_last()).insert(kvs.last().0, kvs.last().1)
    }
}

/// The views of a sequence of owned key-value pairs.
pub open spec fn kv_views(es: Seq<(String, String)>) -> Seq<(Seq<char>, Seq<char>)> {
    Seq::new(es.len(), |i: int| (es[i].0@, es[i].1@))
}

impl View for ParamDocs {
    type V = Map<Seq<char>, Seq<char>>;

    closed spec fn view(&self) -> Map<Seq<char>, Seq<char>> {
        map_of(kv_views(self.entries@))
    }
}

impl ParamDocs {
    /// An empty collection.
    pub fn new() -> (r: Self)
        ensures
            r@ == Map::<Seq<char>, Seq<char>>::empty(),
    {
        ParamDocs { entries: Vec::new() }
    }

    /// Records `text` as the description of parameter `name`, replacing any
    /// earlier description.
    pub fn insert(&mut self, name: String, text: String)
        ensures
            final(self)@ == old(self)@.insert(name@, text@),
    {
        let ghost before = kv_views(self.entries@);
        self.entries.push((name, text));
        proof {
            assert(kv_views(self.entries@).drop_last() =~= before);
        }
    }

    /// Looks up the description of parameter `name`.
    pub fn get(&self, name: &str) -> (r: Option<&String>)
        ensures
            match r {
                Some(t) => self@.contains_key(name@) && t@ == self@[name@],
                None => !self@.contains_key(name@),
            },
    {
        let ghost kvs = kv_views(self.entries@);
        let mut i: usize = self.entries.len();
        proof {
            assert(kvs.take(i as int) =~= kvs);
        }
        while i > 0
            invariant
                i <= self.entries.len(),
                map_of(kvs).contains_key(name@) == map_of(kvs.take(i as int)).contains_key(name@),
                map_of(kvs).contains_key(name@) ==> map_of(kvs)[name@] == map_of(
                    kvs.take(i as int),
                )[name@],
            decreases i,
        {
            proof {
                assert(kvs.take(i as int).drop_last() =~= kvs.take(i - 1));
                assert(kvs.take(i as int).last() == kvs[i - 1]);
            }
            if str_eq(self.entries[i - 1].0.as_str(), name) {
                return Some(&self.entries[i - 1].1);
            }
            i = i - 1;
        }
        proof {
            assert(kvs.take(0) =~= Seq::<(Seq<char>, Seq<char>)>::empty());
        }
        None
    }

    /// Whether no parameter description has been recorded.
    pub fn is_empty(&self) -> (r: bool)
        ensures
            r == (self@ == Map::<Seq<char>, Seq<char>>::empty()),
    {
        let ghost kvs = kv_views(self.entries@);
        if self.entries.len() == 0 {
            true
        } else {
            proof {
                assert(self@.contains_key(kvs.last().0));
                assert(!Map::<Seq<char>, Seq<char>>::empty().contains_key(kvs.last().0));
            }
            false
        }
    }
}

/// A well-formed parameter-tag line yields exactly its entry in the parsed
/// map, provided no later line re-tags the same name (a later tag wins).
pub proof fn lemma_tag_line_parsed(lines: Seq<Seq<char>>, i: int)
    requires
        0 <= i < lines.len(),
        tag_ok(trimmed(lines[i])),
        forall|j: int|
            i < j < lines.len() ==> !(tag_ok(trimmed(#[trigger] lines[j])) && tag_name(
                trimmed(lines[j]),
            ) == tag_name(trimmed(lines[i]))),
    ensures
        param_docs_of(lines).contains_key(tag_name(trimmed(lines[i]))),
        param_docs_of(lines)[tag_name(trimmed(lines[i]))] == tag_text(trimmed(lines[i])),
    decreases lines.len(),
{
    if i == lines.len() - 1 {
    } else {
        let front = lines.drop_last();
        assert(front[i] == lines[i]);
        assert forall|j: int|
            i < j < front.len() implies !(tag_ok(trimmed(#[trigger] front[j])) && tag_name(
            trimmed(front[j]),
        ) == tag_name(trimmed(front[i]))) by {
            assert(front[j] == lines[j]);
        }
        lemma_tag_line_parsed(front, i);
        assert(lines.last() == lines[lines.len() - 1]);
    }
}

/// A tag line that lacks its name or text contributes nothing: neither a
/// parameter description nor a line of the free text.
pub proof fn lemma_malformed_tag_line_skipped(lines: Seq<Seq<char>>, l: Seq<char>)
    requires
        is_tag_line(trimmed(l)),
        !tag_ok(trimmed(l)),
    ensures
        param_docs_of(lines.push(l)) == param_docs_of(lines),
        desc_acc(lines.push(l)) == desc_acc(lines),
{
    assert(lines.push(l).drop_last() =~= lines);
    assert(lines.push(l).last() == l);
}

/// Joins documentation lines with newlines and trims the result: the raw
/// docstring that a block of per-line documentation entries forms.
pub open spec fn joined_doc(lines: Seq<Seq<char>>) -> Seq<char>
    decreases lines.len(),
{
    if lines.len() == 0 {
        Seq::empty()
    } else {
        joined_doc(lines.drop_last()) + lines.last() + seq!['\n']
    }
}

/// Concatenates the documentation lines of a declaration, each followed by a
/// newline, and trims the surrounding blanks.
pub fn extract_docstring(doc_lines: &Vec<String>) -> (r: String)
    ensures
        r@ == trimmed(joined_doc(string_views(doc_lines@))),
{
    let ghost all = string_views(doc_lines@);
    let mut out = String::new();
    let mut i: usize = 0;
    while i < doc_lines.len()
        invariant
            i <= doc_lines.len(),
            out@ == joined_doc(all.take(i as int)),
        decreases doc_lines.len() - i,
    {
        out.append(doc_lines[i].as_str());
        out.append("\n");
        proof {
            reveal_strlit("\n");
            assert(all.take(i + 1).drop_last() =~= all.take(i as int));
            assert("\n"@ =~= seq!['\n']);
        }
        i = i + 1;
    }
    proof {
        assert(all.take(doc_lines.len() as int) =~= all);
    }
    trim_str(out.as_str()).to_owned()
}

/// Parses a docstring into its free-text description and its per-parameter
/// descriptions. The parse is total: malformed tag lines are skipped.
pub fn parse_docstring(docstring: &str) -> (r: (String, ParamDocs))
    ensures
        r.0@ == spec_description(docstring@),
        r.1@ == spec_param_docs(docstring@),
{
    let lines = split_lines(docstring);
    let ghost all = lines_of(docstring@);
    let mut description = String::new();
    let mut docs = ParamDocs::new();
    let mut i: usize = 0;
    while i < lines.len()
        invariant
            i <= lines.len(),
            str_views(lines@) == all,
            all == lines_of(docstring@),
            description@ == desc_acc(all.take(i as int)),
            docs@ == param_docs_of(all.take(i as int)),
        decreases lines.len() - i,
    {
        proof {
            assert(all.take(i + 1).drop_last() =~= all.take(i as int));
            assert(all.take(i + 1).last() == all[i as int]);
            assert(lines@[i as int]@ == all[i as int]);
        }
        let t = trim_str(lines[i]);
        let n = t.unicode_len();
        let e1 = find_blank(t, 0);
        let first = t.substring_char(0, e1);
        proof {
            assert(first@ =~= t@.take(find_blank_from(t@, 0)));
            reveal_strlit("param");
            assert("param"@ =~= param_marker());
        }
        if str_eq(first, "param") {
            let s2 = find_nonblank(t, e1);
            proof {
                crate::text::lemma_find_nonblank_from(t@, e1 as int);
            }
            if s2 < n {
                let e2 = find_blank(t, s2);
                proof {
                    crate::text::lemma_find_blank_from(t@, s2 as int);
                }
                let raw = t.substring_char(s2, e2);
                proof {
                    assert(raw@ =~= t@.subrange(tag_name_start(t@), tag_name_end(t@)));
                }
                let name = strip_underscore(strip_colons(raw));
                let text = trim_str(t.substring_char(e2, n));
                proof {
                    assert(t@.subrange(e2 as int, n as int) == t@.subrange(
                        tag_name_end(t@),
                        t@.len() as int,
                    ));
                }
                if !name.is_empty() && !text.is_empty() {
                    docs.insert(name.to_owned(), text.to_owned());
                } else {
                    proof {
                        assert(!tag_ok(t@));
                    }
                }
            } else {
                proof {
                    assert(tag_name_start(t@) == t@.len());
                    assert(t@.subrange(tag_name_start(t@), tag_name_end(t@)) =~= Seq::<
                        char,
                    >::empty());
                    assert(tag_name(t@).len() == 0);
                    assert(!tag_ok(t@));
                }
            }
        } else {
            description.append(t);
            description.append("\n");
            proof {
                reveal_strlit("\n");
                assert("\n"@ =~= seq!['\n']);
                assert(description@ =~= desc_acc(all.take(i as int)) + t@ + seq!['\n']);
            }
        }
        i = i + 1;
    }
    proof {
        assert(all.take(lines@.len() as int) =~= all);
    }
    let final_description = trim_str(description.as_str()).to_owned();
    (final_description, docs)
}

} // verus!
