//! The segment grammar: parsing one raw token into a typed page segment, and
//! rendering a segment back to the exact syntax it was parsed from.

use vstd::prelude::*;

verus! {

/// The ways in which parsing a token or appending a segment can fail.
#[derive(Clone, Copy, Debug, Hash, PartialEq, Eq, Structural)]
pub enum SegmentError {
    /// A token presented to the grammar was empty.
    EmptySegment,
    /// A token presented to the grammar contained a `/` separator.
    IllegalSlash,
    /// An append tried to add a non-terminal segment after a catch-all.
    InvalidAppend,
}

/// The terminal marker appended after all directory tokens: what kind of leaf
/// the route resolves to.
#[derive(Clone, Copy, Debug, Hash, PartialEq, Eq, Structural)]
pub enum PageType {
    Page,
    Route,
}

/// One typed route segment, covering every recognized token shape.
///
/// `PageType` is never produced by parsing a token; the traversal that builds
/// a page descriptor appends it programmatically as a terminal marker.
#[derive(Debug, Hash, PartialEq, Eq)]
pub enum PageSegment {
    Static(String),
    Dynamic(String),
    CatchAll(String),
    OptionalCatchAll(String),
    Group(String),
    Parallel(String),
    PageType(PageType),
}

/// The mathematical value of a [`PageSegment`]: the same variants over
/// character sequences.
pub enum PageSegmentView {
    Static(Seq<char>),
    Dynamic(Seq<char>),
    CatchAll(Seq<char>),
    OptionalCatchAll(Seq<char>),
    Group(Seq<char>),
    Parallel(Seq<char>),
    PageType(PageType),
}

impl View for PageSegment {
    type V = PageSegmentView;

    open spec fn view(&self) -> PageSegmentView {
        match self {
            PageSegment::Static(s) => PageSegmentView::Static(s@),
            PageSegment::Dynamic(s) => PageSegmentView::Dynamic(s@),
            PageSegment::CatchAll(s) => PageSegmentView::CatchAll(s@),
            PageSegment::OptionalCatchAll(s) => PageSegmentView::OptionalCatchAll(s@),
            PageSegment::Group(s) => PageSegmentView::Group(s@),
            PageSegment::Parallel(s) => PageSegmentView::Parallel(s@),
            PageSegment::PageType(t) => PageSegmentView::PageType(*t),
        }
    }
}

/// What a non-empty, slash-free token parses to.
///
/// The branches are tried in this exact order because the shapes share
/// prefixes: `[[...x]]` would otherwise also match the `[...x]` and `[x]`
/// shapes. Anything that matches no bracketed shape falls through to
/// `Static`, bad bracket nesting included: that leniency is deliberate.
pub open spec fn spec_parse_segment(t: Seq<char>) -> PageSegmentView
    recommends
        t.len() > 0,
{
    if t.len() >= 2 && t[0] == '(' && t[t.len() - 1] == ')' {
        PageSegmentView::Group(t.subrange(1, t.len() - 1))
    } else if t.len() >= 1 && t[0] == '@' {
        PageSegmentView::Parallel(t.subrange(1, t.len() as int))
    } else if t.len() >= 7 && t[0] == '[' && t[1] == '[' && t[2] == '.' && t[3] == '.' && t[4]
        == '.' && t[t.len() - 2] == ']' && t[t.len() - 1] == ']' {
        PageSegmentView::OptionalCatchAll(t.subrange(5, t.len() - 2))
    } else if t.len() >= 5 && t[0] == '[' && t[1] == '.' && t[2] == '.' && t[3] == '.' && t[t.len()
        - 1] == ']' {
        PageSegmentView::CatchAll(t.subrange(4, t.len() - 1))
    } else if t.len() >= 2 && t[0] == '[' && t[t.len() - 1] == ']' {
        PageSegmentView::Dynamic(t.subrange(1, t.len() - 1))
    } else {
        PageSegmentView::Static(t)
    }
}

/// The canonical rendering of a page-type marker.
pub open spec fn spec_render_page_type(t: PageType) -> Seq<char> {
    match t {
        PageType::Page => seq!['p', 'a', 'g', 'e'],
        PageType::Route => seq!['r', 'o', 'u', 't', 'e'],
    }
}

/// The canonical rendering of one segment: the exact syntax it parses from.
pub open spec fn spec_render_segment(v: PageSegmentView) -> Seq<char> {
    match v {
        PageSegmentView::Static(s) => s,
        PageSegmentView::Dynamic(s) => seq!['['] + s + seq![']'],
        PageSegmentView::CatchAll(s) => seq!['[', '.', '.', '.'] + s + seq![']'],
        PageSegmentView::OptionalCatchAll(s) => seq!['[', '[', '.', '.', '.'] + s + seq![']', ']'],
        PageSegmentView::Group(s) => seq!['('] + s + seq![')'],
        PageSegmentView::Parallel(s) => seq!['@'] + s,
        PageSegmentView::PageType(t) => spec_render_page_type(t),
    }
}

/// Rendering inverts parsing: every non-empty, slash-free token comes back
/// unchanged from a parse followed by a render.
pub proof fn lemma_parse_render_round_trip(t: Seq<char>)
    requires
        t.len() > 0,
        !t.contains('/'),
    ensures
        spec_render_segment(spec_parse_segment(t)) == t,
{
    if t.len() >= 2 && t[0] == '(' && t[t.len() - 1] == ')' {
        assert(seq!['('] + t.subrange(1, t.len() - 1) + seq![')'] =~= t);
    } else if t.len() >= 1 && t[0] == '@' {
        assert(seq!['@'] + t.subrange(1, t.len() as int) =~= t);
    } else if t.len() >= 7 && t[0] == '[' && t[1] == '[' && t[2] == '.' && t[3] == '.' && t[4]
        == '.' && t[t.len() - 2] == ']' && t[t.len() - 1] == ']' {
        assert(seq!['[', '[', '.', '.', '.'] + t.subrange(5, t.len() - 2) + seq![']', ']'] =~= t);
    } else if t.len() >= 5 && t[0] == '[' && t[1] == '.' && t[2] == '.' && t[3] == '.' && t[t.len()
        - 1] == ']' {
        assert(seq!['[', '.', '.', '.'] + t.subrange(4, t.len() - 1) + seq![']'] =~= t);
    } else if t.len() >= 2 && t[0] == '[' && t[t.len() - 1] == ']' {
        assert(seq!['['] + t.subrange(1, t.len() - 1) + seq![']'] =~= t);
    }
}

impl PageSegment {
    /// Parses one raw token. Rejects the empty token and any token holding a
    /// `/` separator; everything else parses, by precedence, to one of the
    /// shapes of [`spec_parse_segment`].
    pub fn parse(segment: &str) -> (r: Result<PageSegment, SegmentError>)
        ensures
            match r {
                Ok(seg) => segment@.len() > 0 && !segment@.contains('/') && seg@
                    == spec_parse_segment(segment@),
                Err(SegmentError::EmptySegment) => segment@.len() == 0,
                Err(SegmentError::IllegalSlash) => segment@.len() > 0 && segment@.contains('/'),
                Err(SegmentError::InvalidAppend) => false,
            },
    {
        let n = segment.unicode_len();
        if n == 0 {
            return Err(SegmentError::EmptySegment);
        }
        let mut i: usize = 0;
        while i < n
            invariant
                n == segment@.len(),
                i <= n,
                forall|k: int| 0 <= k < i ==> segment@[k] != '/',
            decreases n - i,
        {
            if segment.get_char(i) == '/' {
                proof {
                    assert(0 <= i < segment@.len() && segment@[i as int] == '/');
                }
                return Err(SegmentError::IllegalSlash);
            }
            i += 1;
        }
        proof {
            assert(!segment@.contains('/')) by {
                if segment@.contains('/') {
                    let j = choose|j: int| 0 <= j < segment@.len() && segment@[j] == '/';
                    assert(segment@[j] != '/');
                }
            }
        }
        if n >= 2 && segment.get_char(0) == '(' && segment.get_char(n - 1) == ')' {
            let name = segment.substring_char(1, n - 1);
            return Ok(PageSegment::Group(String::from_str(name)));
        }
        if segment.get_char(0) == '@' {
            let name = segment.substring_char(1, n);
            return Ok(PageSegment::Parallel(String::from_str(name)));
        }
        if n >= 7 && segment.get_char(0) == '[' && segment.get_char(1) == '[' && segment.get_char(2)
            == '.' && segment.get_char(3) == '.' && segment.get_char(4) == '.' && segment.get_char(
            n - 2,
        ) == ']' && segment.get_char(n - 1) == ']' {
            let name = segment.substring_char(5, n - 2);
            return Ok(PageSegment::OptionalCatchAll(String::from_str(name)));
        }
        if n >= 5 && segment.get_char(0) == '[' && segment.get_char(1) == '.' && segment.get_char(2)
            == '.' && segment.get_char(3) == '.' && segment.get_char(n - 1) == ']' {
            let name = segment.substring_char(4, n - 1);
            return Ok(PageSegment::CatchAll(String::from_str(name)));
        }
        if n >= 2 && segment.get_char(0) == '[' && segment.get_char(n - 1) == ']' {
            let name = segment.substring_char(1, n - 1);
            return Ok(PageSegment::Dynamic(String::from_str(name)));
        }
        Ok(PageSegment::Static(String::from_str(segment)))
    }

    /// Renders the segment to the exact syntax it was parsed from.
    pub fn render(&self) -> (r: String)
        ensures
            r@ == spec_render_segment(self@),
    {
        match self {
            PageSegment::Static(s) => s.clone(),
            PageSegment::Dynamic(s) => {
                let mut out = String::from_str("[");
                out.append(s.as_str());
                out.append("]");
                proof {
                    reveal_strlit("[");
                    reveal_strlit("]");
                    assert(out@ =~= spec_render_segment(self@));
                }
                out
            },
            PageSegment::CatchAll(s) => {
                let mut out = String::from_str("[...");
                out.append(s.as_str());
                out.append("]");
                proof {
                    reveal_strlit("[...");
                    reveal_strlit("]");
                    assert(out@ =~= spec_render_segment(self@));
                }
                out
            },
            PageSegment::OptionalCatchAll(s) => {
                let mut out = String::from_str("[[...");
                out.append(s.as_str());
                out.append("]]");
                proof {
                    reveal_strlit("[[...");
                    reveal_strlit("]]");
                    assert(out@ =~= spec_render_segment(self@));
                }
                out
            },
            PageSegment::Group(s) => {
                let mut out = String::from_str("(");
                out.append(s.as_str());
                out.append(")");
                proof {
                    reveal_strlit("(");
                    reveal_strlit(")");
                    assert(out@ =~= spec_render_segment(self@));
                }
                out
            },
            PageSegment::Parallel(s) => {
                let mut out = String::from_str("@");
                out.append(s.as_str());
                proof {
                    reveal_strlit("@");
                    assert(out@ =~= spec_render_segment(self@));
                }
                out
            },
            PageSegment::PageType(t) => t.render(),
        }
    }
}

impl Clone for PageSegment {
    /// A clone is equal to the original, field for field.
    fn clone(&self) -> (r: Self)
        ensures
            r == *self,
    {
        match self {
            PageSegment::Static(s) => PageSegment::Static(s.clone()),
            PageSegment::Dynamic(s) => PageSegment::Dynamic(s.clone()),
            PageSegment::CatchAll(s) => PageSegment::CatchAll(s.clone()),
            PageSegment::OptionalCatchAll(s) => PageSegment::OptionalCatchAll(s.clone()),
            PageSegment::Group(s) => PageSegment::Group(s.clone()),
            PageSegment::Parallel(s) => PageSegment::Parallel(s.clone()),
            PageSegment::PageType(t) => PageSegment::PageType(*t),
        }
    }
}

impl PageType {
    /// Renders the marker: `page` or `route`.
    pub fn render(&self) -> (r: String)
        ensures
            r@ == spec_render_page_type(*self),
    {
        match self {
            PageType::Page => {
                let r = String::from_str("page");
                proof {
                    reveal_strlit("page");
                    assert(r@ =~= seq!['p', 'a', 'g', 'e']);
                }
                r
            },
            PageType::Route => {
                let r = String::from_str("route");
                proof {
                    reveal_strlit("route");
                    assert(r@ =~= seq!['r', 'o', 'u', 't', 'e']);
                }
                r
            },
        }
    }
}

} // verus!
