//! The path container: the URL-facing route derived from a page descriptor,
//! keeping only the routable segments in their original order.

use vstd::prelude::*;

use crate::page::AppPage;
use crate::segment::PageSegmentView;
use crate::segment::PageSegment;

verus! {

/// One URL-routable segment: the four page-segment shapes that are part of
/// the pathname.
#[derive(Debug, Hash, PartialEq, Eq)]
pub enum PathSegment {
    Static(String),
    Dynamic(String),
    CatchAll(String),
    OptionalCatchAll(String),
}

/// The mathematical value of a [`PathSegment`]: the same variants over
/// character sequences.
pub enum PathSegmentView {
    Static(Seq<char>),
    Dynamic(Seq<char>),
    CatchAll(Seq<char>),
    OptionalCatchAll(Seq<char>),
}

impl View for PathSegment {
    type V = PathSegmentView;

    open spec fn view(&self) -> PathSegmentView {
        match self {
            PathSegment::Static(s) => PathSegmentView::Static(s@),
            PathSegment::Dynamic(s) => PathSegmentView::Dynamic(s@),
            PathSegment::CatchAll(s) => PathSegmentView::CatchAll(s@),
            PathSegment::OptionalCatchAll(s) => PathSegmentView::OptionalCatchAll(s@),
        }
    }
}

/// The canonical rendering of one routable segment: identical to the
/// rendering of the matching page-segment shape.
pub open spec fn spec_render_path_segment(v: PathSegmentView) -> Seq<char> {
    match v {
        PathSegmentView::Static(s) => s,
        PathSegmentView::Dynamic(s) => seq!['['] + s + seq![']'],
        PathSegmentView::CatchAll(s) => seq!['[', '.', '.', '.'] + s + seq![']'],
        PathSegmentView::OptionalCatchAll(s) => seq!['[', '[', '.', '.', '.'] + s + seq![']', ']'],
    }
}

/// The routable counterpart of one page segment: the four routable shapes
/// map to their identically-named path shape, and groups, parallel markers
/// and page-type markers are dropped.
pub open spec fn spec_path_of(v: PageSegmentView) -> Option<PathSegmentView> {
    match v {
        PageSegmentView::Static(s) => Some(PathSegmentView::Static(s)),
        PageSegmentView::Dynamic(s) => Some(PathSegmentView::Dynamic(s)),
        PageSegmentView::CatchAll(s) => Some(PathSegmentView::CatchAll(s)),
        PageSegmentView::OptionalCatchAll(s) => Some(PathSegmentView::OptionalCatchAll(s)),
        PageSegmentView::Group(_) => None,
        PageSegmentView::Parallel(_) => None,
        PageSegmentView::PageType(_) => None,
    }
}

/// The path derived from a sequence of page segments: each routable entry
/// mapped through [`spec_path_of`] in order, every other entry dropped.
pub open spec fn spec_derive(segs: Seq<PageSegmentView>) -> Seq<PathSegmentView>
    decreases segs.len(),
{
    if segs.len() == 0 {
        Seq::empty()
    } else {
        let rest = spec_derive(segs.drop_first());
        match spec_path_of(segs[0]) {
            Some(p) => seq![p] + rest,
            None => rest,
        }
    }
}

/// Derivation distributes over appending one page segment at the end.
proof fn lemma_spec_derive_push(segs: Seq<PageSegmentView>, v: PageSegmentView)
    ensures
        spec_derive(segs.push(v)) == spec_derive(segs) + (match spec_path_of(v) {
            Some(p) => seq![p],
            None => Seq::<PathSegmentView>::empty(),
        }),
    decreases segs.len(),
{
    let tail = (match spec_path_of(v) {
        Some(p) => seq![p],
        None => Seq::<PathSegmentView>::empty(),
    });
    if segs.len() == 0 {
        assert(segs.push(v)[0] == v);
        assert(segs.push(v).drop_first() =~= Seq::<PageSegmentView>::empty());
        assert(spec_derive(Seq::<PageSegmentView>::empty()) == Seq::<PathSegmentView>::empty());
        assert(spec_derive(segs.push(v)) =~= spec_derive(segs) + tail);
    } else {
        let l = segs.push(v);
        assert(l[0] == segs[0]);
        assert(l.drop_first() =~= segs.drop_first().push(v));
        lemma_spec_derive_push(segs.drop_first(), v);
        assert(spec_derive(l) =~= spec_derive(segs) + tail);
    }
}

/// The concatenation, for each routable segment in order, of a `/` separator
/// followed by that segment's rendering.
pub open spec fn spec_render_path_segments(segs: Seq<PathSegmentView>) -> Seq<char>
    decreases segs.len(),
{
    if segs.len() == 0 {
        Seq::empty()
    } else {
        seq!['/'] + spec_render_path_segment(segs[0]) + spec_render_path_segments(
            segs.drop_first(),
        )
    }
}

/// The canonical rendering of a whole path: the bare separator when it is
/// empty, otherwise a `/` before each entry's rendering.
pub open spec fn spec_render_path(segs: Seq<PathSegmentView>) -> Seq<char> {
    if segs.len() == 0 {
        seq!['/']
    } else {
        spec_render_path_segments(segs)
    }
}

/// Rendering distributes over appending one routable segment at the end.
proof fn lemma_render_path_segments_push(segs: Seq<PathSegmentView>, v: PathSegmentView)
    ensures
        spec_render_path_segments(segs.push(v)) == spec_render_path_segments(segs) + seq!['/']
            + spec_render_path_segment(v),
    decreases segs.len(),
{
    if segs.len() == 0 {
        assert(segs.push(v)[0] == v);
        assert(segs.push(v).drop_first() =~= Seq::<PathSegmentView>::empty());
        assert(spec_render_path_segments(Seq::<PathSegmentView>::empty())
            == Seq::<char>::empty());
        assert(spec_render_path_segments(segs.push(v)) =~= spec_render_path_segments(segs)
            + seq!['/'] + spec_render_path_segment(v));
    } else {
        let l = segs.push(v);
        assert(l[0] == segs[0]);
        assert(l.drop_first() =~= segs.drop_first().push(v));
        lemma_render_path_segments_push(segs.drop_first(), v);
        assert(spec_render_path_segments(l) == seq!['/'] + spec_render_path_segment(l[0])
            + spec_render_path_segments(l.drop_first()));
        assert(spec_render_path_segments(l) =~= spec_render_path_segments(segs) + seq!['/']
            + spec_render_path_segment(v));
    }
}

/// The URL-facing route with placeholders: only the routable segments of a
/// page descriptor, in their original order.
#[derive(Debug, Hash, PartialEq, Eq)]
pub struct AppPath(pub Vec<PathSegment>);

impl View for AppPath {
    type V = Seq<PathSegmentView>;

    open spec fn view(&self) -> Seq<PathSegmentView> {
        Seq::new(self.0@.len(), |i: int| self.0@[i]@)
    }
}

impl AppPath {
    /// Derives the path of a page descriptor: keeps each routable entry,
    /// mapped to its path shape, and drops every group, parallel marker and
    /// page-type marker. Pure and total; the page is left untouched.
    pub fn from_page(page: &AppPage) -> (r: AppPath)
        ensures
            r@ == spec_derive(page@),
    {
        let mut v: Vec<PathSegment> = Vec::new();
        let mut i: usize = 0;
        while i < page.0.len()
            invariant
                i <= page.0.len(),
                v@.map_values(|p: PathSegment| p@) == spec_derive(page@.subrange(0, i as int)),
            decreases page.0.len() - i,
        {
            let ghost prefix = page@.subrange(0, i as int);
            let mapped: Option<PathSegment> = match &page.0[i] {
                PageSegment::Static(s) => Some(PathSegment::Static(s.clone())),
                PageSegment::Dynamic(s) => Some(PathSegment::Dynamic(s.clone())),
                PageSegment::CatchAll(s) => Some(PathSegment::CatchAll(s.clone())),
                PageSegment::OptionalCatchAll(s) => Some(PathSegment::OptionalCatchAll(s.clone())),
                PageSegment::Group(_) => None,
                PageSegment::Parallel(_) => None,
                PageSegment::PageType(_) => None,
            };
            proof {
                lemma_spec_derive_push(prefix, page@[i as int]);
                assert(page@.subrange(0, i as int + 1) =~= prefix.push(page@[i as int]));
            }
            match mapped {
                Some(p) => {
                    let ghost before = v@;
                    v.push(p);
                    proof {
                        assert(v@.map_values(|q: PathSegment| q@) =~= before.map_values(
                            |q: PathSegment| q@,
                        ).push(p@));
                        assert(spec_derive(prefix) + seq![p@] =~= spec_derive(prefix).push(p@));
                    }
                },
                None => {
                    proof {
                        assert(spec_derive(prefix) + Seq::<PathSegmentView>::empty()
                            =~= spec_derive(prefix));
                    }
                },
            }
            i += 1;
        }
        proof {
            assert(page@.subrange(0, page@.len() as int) =~= page@);
        }
        let r = AppPath(v);
        proof {
            assert(r@ =~= v@.map_values(|p: PathSegment| p@));
        }
        r
    }

    /// Renders the path: the bare separator when it is empty, otherwise a
    /// `/` before each entry's rendering, in order.
    pub fn render(&self) -> (r: String)
        ensures
            r@ == spec_render_path(self@),
    {
        if self.0.len() == 0 {
            let r = String::from_str("/");
            proof {
                reveal_strlit("/");
                assert(r@ =~= seq!['/']);
            }
            return r;
        }
        let mut out = String::new();
        let mut i: usize = 0;
        while i < self.0.len()
            invariant
                i <= self.0.len(),
                out@ == spec_render_path_segments(self@.subrange(0, i as int)),
            decreases self.0.len() - i,
        {
            out.append("/");
            let seg_str = self.0[i].render();
            out.append(seg_str.as_str());
            proof {
                reveal_strlit("/");
                lemma_render_path_segments_push(self@.subrange(0, i as int), self@[i as int]);
                assert(self@.subrange(0, i as int + 1) =~= self@.subrange(0, i as int).push(
                    self@[i as int],
                ));
            }
            i += 1;
        }
        proof {
            assert(self@.subrange(0, self@.len() as int) =~= self@);
        }
        out
    }
}

impl PathSegment {
    /// Renders the segment to the exact syntax of its page counterpart.
    pub fn render(&self) -> (r: String)
        ensures
            r@ == spec_render_path_segment(self@),
    {
        match self {
            PathSegment::Static(s) => s.clone(),
            PathSegment::Dynamic(s) => {
                let mut out = String::from_str("[");
                out.append(s.as_str());
                out.append("]");
                proof {
                    reveal_strlit("[");
                    reveal_strlit("]");
                    assert(out@ =~= spec_render_path_segment(self@));
                }
                out
            },
            PathSegment::CatchAll(s) => {
                let mut out = String::from_str("[...");
                out.append(s.as_str());
                out.append("]");
                proof {
                    reveal_strlit("[...");
                    reveal_strlit("]");
                    assert(out@ =~= spec_render_path_segment(self@));
                }
                out
            },
            PathSegment::OptionalCatchAll(s) => {
                let mut out = String::from_str("[[...");
                out.append(s.as_str());
                out.append("]]");
                proof {
                    reveal_strlit("[[...");
                    reveal_strlit("]]");
                    assert(out@ =~= spec_render_path_segment(self@));
                }
                out
            },
        }
    }
}

impl Clone for PathSegment {
    /// A clone is equal to the original, field for field.
    fn clone(&self) -> (r: Self)
        ensures
            r == *self,
    {
        match self {
            PathSegment::Static(s) => PathSegment::Static(s.clone()),
            PathSegment::Dynamic(s) => PathSegment::Dynamic(s.clone()),
            PathSegment::CatchAll(s) => PathSegment::CatchAll(s.clone()),
            PathSegment::OptionalCatchAll(s) => PathSegment::OptionalCatchAll(s.clone()),
        }
    }
}

impl Clone for AppPath {
    /// A clone holds the same segments as the original.
    fn clone(&self) -> (r: Self)
        ensures
            r@ == self@,
    {
        let mut v: Vec<PathSegment> = Vec::new();
        let mut i: usize = 0;
        while i < self.0.len()
            invariant
                i <= self.0.len(),
                v@.len() == i,
                forall|k: int| 0 <= k < i ==> v@[k] == self.0@[k],
            decreases self.0.len() - i,
        {
            v.push(self.0[i].clone());
            i += 1;
        }
        let r = AppPath(v);
        proof {
            assert(r@ =~= self@);
        }
        r
    }
}

impl Default for AppPath {
    /// The default path is empty.
    fn default() -> (r: Self)
        ensures
            r@ == Seq::<PathSegmentView>::empty(),
    {
        let r = AppPath(Vec::new());
        proof {
            assert(r@ =~= Seq::<PathSegmentView>::empty());
        }
        r
    }
}

} // verus!
