//! Names the files that the pages are written to.

use vstd::prelude::*;
use crate::prefix::{compact, shrink_iri};
use crate::render_html::{Names, OntologyRender};
use crate::text::{contains_text, occurs_in, pieces, split_at_colons, texts_of};

verus! {

/// The members of `parts` in a row, `sep` between each two of them.
pub open spec fn joined(parts: Seq<Seq<char>>, sep: char) -> Seq<char>
    decreases parts.len(),
{
    if parts.len() == 0 {
        Seq::empty()
    } else if parts.len() == 1 {
        parts[0]
    } else {
        joined(parts.drop_last(), sep) + seq![sep] + parts.last()
    }
}

/// The name of the page of `iri` at the top of the site: the compact form
/// of the IRI where it has one without a colon.
pub open spec fn page_name_of(names: Names, iri: Seq<char>) -> Option<Seq<char>> {
    match compact(names.default, names.prefixes, iri) {
        Some(c) => if c.contains(':') {
            None
        } else {
            Some(c)
        },
        None => None,
    }
}

/// The path of the page of `iri` under the import with the prefix
/// `suffix`: the compact form of the IRI where it has one in which
/// `suffix` occurs, a slash in place of each colon.
pub open spec fn import_page_path_of(names: Names, iri: Seq<char>, suffix: Seq<char>) -> Option<
    Seq<char>,
> {
    match compact(names.default, names.prefixes, iri) {
        Some(c) => if occurs_in(c, suffix) {
            Some(joined(pieces(c, ':'), '/'))
        } else {
            None
        },
        None => None,
    }
}

/// A text is one piece exactly when it holds no separator, and is then that
/// piece.
pub proof fn one_piece_without_separator(s: Seq<char>, sep: char)
    ensures
        pieces(s, sep).len() >= 1,
        pieces(s, sep).len() == 1 <==> !s.contains(sep),
        pieces(s, sep).len() == 1 ==> pieces(s, sep)[0] == s,
    decreases s.len(),
{
    if s.len() > 0 {
        let rest = s.drop_last();
        one_piece_without_separator(rest, sep);
        let p = pieces(rest, sep);
        if s.last() == sep {
            assert(s[s.len() - 1] == sep);
        } else {
            if rest.contains(sep) {
                let i = choose|i: int| 0 <= i < rest.len() && rest[i] == sep;
                assert(s[i] == sep);
            }
            if s.contains(sep) {
                let i = choose|i: int| 0 <= i < s.len() && s[i] == sep;
                assert(rest[i] == sep);
            }
            if p.len() == 1 {
                assert(p.drop_last().push(p.last().push(s.last()))[0] =~= s);
            }
        }
    } else {
        assert(pieces(s, sep)[0] =~= s);
    }
}

/// Writes `parts` in a row with a slash between each two of them.
pub fn join_with_slash(parts: &Vec<String>) -> (r: String)
    ensures
        r@ == joined(texts_of(parts@), '/'),
{
    let mut out = String::new();
    let mut i: usize = 0;
    proof {
        reveal_strlit("/");
    }
    assert(out@ =~= joined(texts_of(parts@).take(0), '/'));
    while i < parts.len()
        invariant
            i <= parts.len(),
            "/"@ == seq!['/'],
            out@ == joined(texts_of(parts@).take(i as int), '/'),
        decreases parts.len() - i,
    {
        let ghost next = texts_of(parts@).take(i + 1);
        assert(next.drop_last() =~= texts_of(parts@).take(i as int));
        assert(next.last() == parts[i as int]@);
        if i > 0 {
            out.append("/");
        }
        out.append(parts[i].as_str());
        assert(out@ =~= joined(next, '/'));
        i += 1;
    }
    assert(texts_of(parts@).take(parts.len() as int) =~= texts_of(parts@));
    out
}

impl OntologyRender {
    /// The name under which the page of `iri` is written at the top of the
    /// site, if it is written there.
    pub fn page_name(&self, iri: &str) -> (r: Option<String>)
        ensures
            match r {
                Some(n) => page_name_of(self.names(), iri@) == Some(n@),
                None => page_name_of(self.names(), iri@).is_none(),
            },
    {
        match shrink_iri(&self.prefix_mapping, iri) {
            Some(c) => {
                let parts = split_at_colons(c.as_str());
                proof {
                    one_piece_without_separator(c@, ':');
                }
                assert(texts_of(parts@).len() == parts.len());
                if parts.len() == 1 {
                    assert(texts_of(parts@)[0] == parts[0]@);
                    Some(c)
                } else {
                    None
                }
            },
            None => None,
        }
    }

    /// The path under which the page of `iri` is written for the import
    /// with the prefix `suffix`, if it is written for it.
    pub fn import_page_path(&self, iri: &str, suffix: &str) -> (r: Option<String>)
        ensures
            match r {
                Some(n) => import_page_path_of(self.names(), iri@, suffix@) == Some(n@),
                None => import_page_path_of(self.names(), iri@, suffix@).is_none(),
            },
    {
        match shrink_iri(&self.prefix_mapping, iri) {
            Some(c) => {
                if contains_text(c.as_str(), suffix) {
                    let parts = split_at_colons(c.as_str());
                    Some(join_with_slash(&parts))
                } else {
                    None
                }
            },
            None => None,
        }
    }
}

} // verus!
