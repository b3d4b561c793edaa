//! The page container: the ordered descriptor of a route, built by appending
//! one segment per directory level, with the catch-all ordering rule checked
//! on every append.

use vstd::prelude::*;

use crate::segment::PageSegment;
use crate::segment::PageSegmentView;
use crate::segment::SegmentError;
use crate::segment::spec_parse_segment;
use crate::segment::spec_render_segment;

verus! {

/// Whether `seg` may follow the segments `segs`: once the last entry is a
/// catch-all of either kind, only a page-type marker may still be appended.
pub open spec fn can_append(segs: Seq<PageSegmentView>, seg: PageSegmentView) -> bool {
    (segs.len() > 0 && (segs.last() is CatchAll || segs.last() is OptionalCatchAll)) ==> seg
        is PageType
}

/// What appending one raw token does to the segments `segs`: an empty token
/// is a harmless no-op, a token with a separator is rejected, and otherwise
/// the parsed segment is appended if the ordering rule allows it.
pub open spec fn spec_push_token(segs: Seq<PageSegmentView>, t: Seq<char>) -> Result<
    Seq<PageSegmentView>,
    SegmentError,
> {
    if t.len() == 0 {
        Ok(segs)
    } else if t.contains('/') {
        Err(SegmentError::IllegalSlash)
    } else if !can_append(segs, spec_parse_segment(t)) {
        Err(SegmentError::InvalidAppend)
    } else {
        Ok(segs.push(spec_parse_segment(t)))
    }
}

/// The position of the first `/` in `s`, or `s.len()` if there is none.
pub open spec fn first_slash(s: Seq<char>) -> int
    decreases s.len(),
{
    if s.len() == 0 {
        0
    } else if s[0] == '/' {
        0
    } else {
        1 + first_slash(s.subrange(1, s.len() as int))
    }
}

/// A position that is a `/` with no `/` before it is `first_slash`.
proof fn lemma_first_slash_at(s: Seq<char>, j: int)
    requires
        0 <= j <= s.len(),
        forall|k: int| 0 <= k < j ==> s[k] != '/',
        j < s.len() ==> s[j] == '/',
    ensures
        first_slash(s) == j,
    decreases s.len(),
{
    if j == 0 {
    } else {
        let tail = s.subrange(1, s.len() as int);
        assert forall|k: int| 0 <= k < j - 1 implies tail[k] != '/' by {
            assert(tail[k] == s[k + 1]);
        }
        lemma_first_slash_at(tail, j - 1);
    }
}

/// The tokens of `s`: the substrings between `/` separators, in order,
/// leading and trailing empty tokens included.
pub open spec fn split_slash(s: Seq<char>) -> Seq<Seq<char>>
    decreases s.len(),
{
    let j = first_slash(s);
    if j < 0 || j >= s.len() {
        seq![s]
    } else {
        seq![s.subrange(0, j)] + split_slash(s.subrange(j + 1, s.len() as int))
    }
}

/// What appending each token in `tokens`, in order, does to the segments
/// `segs`: the result after all of them, or the first failure.
pub open spec fn spec_parse_tokens(segs: Seq<PageSegmentView>, tokens: Seq<Seq<char>>) -> Result<
    Seq<PageSegmentView>,
    SegmentError,
>
    decreases tokens.len(),
{
    if tokens.len() == 0 {
        Ok(segs)
    } else {
        match spec_push_token(segs, tokens[0]) {
            Ok(segs2) => spec_parse_tokens(segs2, tokens.drop_first()),
            Err(e) => Err(e),
        }
    }
}

/// What parsing a whole route string yields: the tokens between separators,
/// appended in order to an empty container.
pub open spec fn spec_parse_path(s: Seq<char>) -> Result<Seq<PageSegmentView>, SegmentError> {
    spec_parse_tokens(Seq::empty(), split_slash(s))
}

/// The concatenation, for each segment in order, of a `/` separator followed
/// by that segment's rendering.
pub open spec fn spec_render_segments(segs: Seq<PageSegmentView>) -> Seq<char>
    decreases segs.len(),
{
    if segs.len() == 0 {
        Seq::empty()
    } else {
        seq!['/'] + spec_render_segment(segs[0]) + spec_render_segments(segs.drop_first())
    }
}

/// The canonical rendering of a whole container: the bare separator when it
/// is empty, otherwise a `/` before each entry's rendering.
pub open spec fn spec_render_page(segs: Seq<PageSegmentView>) -> Seq<char> {
    if segs.len() == 0 {
        seq!['/']
    } else {
        spec_render_segments(segs)
    }
}

/// Rendering distributes over appending one segment at the end.
proof fn lemma_render_segments_push(segs: Seq<PageSegmentView>, v: PageSegmentView)
    ensures
        spec_render_segments(segs.push(v)) == spec_render_segments(segs) + seq!['/']
            + spec_render_segment(v),
    decreases segs.len(),
{
    if segs.len() == 0 {
        assert(segs =~= Seq::<PageSegmentView>::empty());
        assert(segs.push(v)[0] == v);
        assert(segs.push(v).drop_first() =~= Seq::<PageSegmentView>::empty());
        assert(spec_render_segments(Seq::<PageSegmentView>::empty()) == Seq::<char>::empty());
        assert(spec_render_segments(segs.push(v)) =~= spec_render_segments(segs) + seq!['/']
            + spec_render_segment(v));
    } else {
        let l = segs.push(v);
        assert(l[0] == segs[0]);
        assert(l.drop_first() =~= segs.drop_first().push(v));
        lemma_render_segments_push(segs.drop_first(), v);
        assert(spec_render_segments(l) == seq!['/'] + spec_render_segment(l[0])
            + spec_render_segments(l.drop_first()));
        assert(spec_render_segments(l) =~= spec_render_segments(segs) + seq!['/']
            + spec_render_segment(v));
    }
}

/// The ordered descriptor of a route, including the segments that are not
/// part of the URL: groups, parallel-route markers and the page-type marker.
#[derive(Debug, Hash, PartialEq, Eq)]
pub struct AppPage(pub Vec<PageSegment>);

impl View for AppPage {
    type V = Seq<PageSegmentView>;

    open spec fn view(&self) -> Seq<PageSegmentView> {
        Seq::new(self.0@.len(), |i: int| self.0@[i]@)
    }
}

impl AppPage {
    /// An empty container.
    pub fn new() -> (r: AppPage)
        ensures
            r@ == Seq::<PageSegmentView>::empty(),
    {
        let r = AppPage(Vec::new());
        proof {
            assert(r@ =~= Seq::<PageSegmentView>::empty());
        }
        r
    }

    /// Appends one segment, unless the last entry is a catch-all and the new
    /// segment is not a page-type marker. On failure the container is left
    /// exactly as it was.
    pub fn push(&mut self, segment: PageSegment) -> (r: Result<(), SegmentError>)
        ensures
            match r {
                Ok(()) => can_append(old(self)@, segment@) && final(self)@ == old(self)@.push(
                    segment@,
                ),
                Err(e) => e == SegmentError::InvalidAppend && !can_append(old(self)@, segment@)
                    && final(self)@ == old(self)@,
            },
    {
        let len = self.0.len();
        if len > 0 {
            let last_is_catch_all = match &self.0[len - 1] {
                PageSegment::CatchAll(_) => true,
                PageSegment::OptionalCatchAll(_) => true,
                _ => false,
            };
            let is_page_type = match &segment {
                PageSegment::PageType(_) => true,
                _ => false,
            };
            if last_is_catch_all && !is_page_type {
                return Err(SegmentError::InvalidAppend);
            }
        }
        self.0.push(segment);
        proof {
            assert(self@ =~= old(self)@.push(segment@));
        }
        Ok(())
    }

    /// Appends one raw token: a no-op on the empty token, otherwise the
    /// parsed segment, propagating either a grammar error or the ordering
    /// error. On failure the container is left exactly as it was.
    pub fn push_str(&mut self, segment: &str) -> (r: Result<(), SegmentError>)
        ensures
            match r {
                Ok(()) => spec_push_token(old(self)@, segment@) matches Ok(s) && s == final(self)@,
                Err(e) => spec_push_token(old(self)@, segment@) matches Err(e2) && e2 == e
                    && final(self)@ == old(self)@,
            },
    {
        if segment.unicode_len() == 0 {
            return Ok(());
        }
        match PageSegment::parse(segment) {
            Ok(seg) => self.push(seg),
            Err(e) => Err(e),
        }
    }

    /// A non-mutating [`AppPage::push`]: the result is the receiver with the
    /// segment appended, and the receiver itself is untouched.
    pub fn clone_push(&self, segment: PageSegment) -> (r: Result<AppPage, SegmentError>)
        ensures
            match r {
                Ok(p) => can_append(self@, segment@) && p@ == self@.push(segment@),
                Err(e) => e == SegmentError::InvalidAppend && !can_append(self@, segment@),
            },
    {
        let mut cloned = self.clone();
        match cloned.push(segment) {
            Ok(()) => Ok(cloned),
            Err(e) => Err(e),
        }
    }

    /// A non-mutating [`AppPage::push_str`]: the result is the receiver with
    /// the token appended, and the receiver itself is untouched.
    pub fn clone_push_str(&self, segment: &str) -> (r: Result<AppPage, SegmentError>)
        ensures
            match r {
                Ok(p) => spec_push_token(self@, segment@) matches Ok(s) && s == p@,
                Err(e) => spec_push_token(self@, segment@) matches Err(e2) && e2 == e,
            },
    {
        let mut cloned = self.clone();
        match cloned.push_str(segment) {
            Ok(()) => Ok(cloned),
            Err(e) => Err(e),
        }
    }

    /// Parses a whole route string: splits it on `/` and appends each token
    /// in order to an empty container, failing with whatever the first
    /// failing append produced. Empty tokens from a leading or trailing
    /// separator are harmless no-ops.
    pub fn parse(page: &str) -> (r: Result<AppPage, SegmentError>)
        ensures
            match r {
                Ok(p) => spec_parse_path(page@) matches Ok(v) && v == p@,
                Err(e) => spec_parse_path(page@) matches Err(e2) && e2 == e,
            },
    {
        let mut app = AppPage::new();
        match parse_from(&mut app, page) {
            Ok(()) => Ok(app),
            Err(e) => Err(e),
        }
    }

    /// Renders the container: the bare separator when it is empty, otherwise
    /// a `/` before each entry's rendering, in order.
    pub fn render(&self) -> (r: String)
        ensures
            r@ == spec_render_page(self@),
    {
        if self.0.len() == 0 {
            let r = String::from_str("/");
            proof {
                reveal_strlit("/");
                assert(r@ =~= seq!['/']);
            }
            return r;
        }
        let mut out = String::new();
        let mut i: usize = 0;
        while i < self.0.len()
            invariant
                i <= self.0.len(),
                out@ == spec_render_segments(self@.subrange(0, i as int)),
            decreases self.0.len() - i,
        {
            out.append("/");
            let seg_str = self.0[i].render();
            out.append(seg_str.as_str());
            proof {
                reveal_strlit("/");
                lemma_render_segments_push(self@.subrange(0, i as int), self@[i as int]);
                assert(self@.subrange(0, i as int + 1) =~= self@.subrange(0, i as int).push(
                    self@[i as int],
                ));
            }
            i += 1;
        }
        proof {
            assert(self@.subrange(0, self@.len() as int) =~= self@);
        }
        out
    }
}

impl Clone for AppPage {
    /// A clone holds the same segments as the original.
    fn clone(&self) -> (r: Self)
        ensures
            r@ == self@,
    {
        let mut v: Vec<PageSegment> = Vec::new();
        let mut i: usize = 0;
        while i < self.0.len()
            invariant
                i <= self.0.len(),
                v@.len() == i,
                forall|k: int| 0 <= k < i ==> v@[k] == self.0@[k],
            decreases self.0.len() - i,
        {
            v.push(self.0[i].clone());
            i += 1;
        }
        let r = AppPage(v);
        proof {
            assert(r@ =~= self@);
        }
        r
    }
}

impl Default for AppPage {
    /// The default container is empty.
    fn default() -> (r: Self)
        ensures
            r@ == Seq::<PageSegmentView>::empty(),
    {
        AppPage::new()
    }
}

/// The index of the first `/` in `s`, or its length if there is none.
fn find_slash(s: &str) -> (r: usize)
    ensures
        r as int == first_slash(s@),
        r <= s@.len(),
{
    let n = s.unicode_len();
    let mut i: usize = 0;
    while i < n
        invariant
            n == s@.len(),
            i <= n,
            forall|k: int| 0 <= k < i ==> s@[k] != '/',
        decreases n - i,
    {
        if s.get_char(i) == '/' {
            proof {
                lemma_first_slash_at(s@, i as int);
            }
            return i;
        }
        i += 1;
    }
    proof {
        lemma_first_slash_at(s@, n as int);
    }
    n
}

/// Appends every token of `s`, in order, to `app`; used by
/// [`AppPage::parse`] with an empty container.
fn parse_from(app: &mut AppPage, s: &str) -> (r: Result<(), SegmentError>)
    ensures
        match r {
            Ok(()) => spec_parse_tokens(old(app)@, split_slash(s@)) matches Ok(v)
                && v == final(app)@,
            Err(e) => spec_parse_tokens(old(app)@, split_slash(s@)) matches Err(e2) && e2 == e,
        },
    decreases s@.len(),
{
    let n = s.unicode_len();
    let j = find_slash(s);
    if j >= n {
        let r = app.push_str(s);
        proof {
            let toks = split_slash(s@);
            assert(toks == seq![s@]);
            assert(toks[0] == s@);
            assert(toks.drop_first() =~= Seq::<Seq<char>>::empty());
            match spec_push_token(old(app)@, s@) {
                Ok(s2) => {
                    assert(spec_parse_tokens(s2, toks.drop_first()) == Ok::<_, SegmentError>(s2));
                    assert(spec_parse_tokens(old(app)@, toks) == Ok::<_, SegmentError>(s2));
                },
                Err(e) => {
                    assert(spec_parse_tokens(old(app)@, toks) == Err::<Seq<PageSegmentView>, _>(
                        e,
                    ));
                },
            }
        }
        r
    } else {
        let head = s.substring_char(0, j);
        let toks = Ghost(split_slash(s@));
        proof {
            assert(toks@ == seq![s@.subrange(0, j as int)] + split_slash(
                s@.subrange(j as int + 1, s@.len() as int),
            ));
            assert(toks@[0] == s@.subrange(0, j as int));
            assert(toks@.drop_first() =~= split_slash(s@.subrange(j as int + 1, s@.len() as int)));
        }
        match app.push_str(head) {
            Ok(()) => {
                let mid = Ghost(app@);
                let tail = s.substring_char(j + 1, n);
                let r = parse_from(app, tail);
                proof {
                    assert(spec_push_token(old(app)@, toks@[0]) == Ok::<_, SegmentError>(mid@));
                    assert(spec_parse_tokens(old(app)@, toks@) == spec_parse_tokens(
                        mid@,
                        split_slash(tail@),
                    ));
                }
                r
            },
            Err(e) => {
                proof {
                    assert(spec_parse_tokens(old(app)@, toks@) == Err::<Seq<PageSegmentView>, _>(
                        e,
                    ));
                }
                Err(e)
            },
        }
    }
}

} // verus!
