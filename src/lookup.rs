use vstd::prelude::*;
use vstd::string::StringExecFns;
use crate::listen_addr::is_digit;

verus! {

/// One step of a lookup path: a field name or an array index.
#[derive(Clone, Debug, PartialEq, Eq)]
pub enum Segment {
    Field(String),
    Index(usize),
}

/// A segment as plain values.
pub enum PathSeg {
    Field(Seq<char>),
    Index(nat),
}

impl Segment {
    pub open spec fn view_seg(&self) -> PathSeg {
        match self {
            Segment::Field(s) => PathSeg::Field(s@),
            Segment::Index(i) => PathSeg::Index(*i as nat),
        }
    }

    pub fn field(name: &str) -> (r: Segment)
        ensures
            r.view_seg() == PathSeg::Field(name@),
    {
        Segment::Field(String::from_str(name))
    }

    pub fn index(i: usize) -> (r: Segment)
        ensures
            r.view_seg() == PathSeg::Index(i as nat),
    {
        Segment::Index(i)
    }
}

pub open spec fn segs_view(v: Seq<Segment>) -> Seq<PathSeg> {
    v.map_values(|s: Segment| s.view_seg())
}

/// Where the reader of a lookup path stands.
#[derive(Clone, Copy, Debug, PartialEq, Eq, Structural)]
pub enum LexState {
    /// A segment must start here.
    Start,
    /// Inside an unquoted field that began at this char index.
    Bare(usize),
    /// Inside a quoted field whose text begins at this char index.
    Quoted(usize),
    /// After a field or an index: `.`, `[` or the end may follow.
    AfterSegment,
    /// Inside `[..]`, with the digits read so far, if any.
    InIndex(Option<usize>),
    /// The path is malformed.
    Fail,
}

pub open spec fn digit_of(c: char) -> nat {
    (c as nat - '0' as nat) as nat
}

/// Reading char `i` of `s` in state `st`, with segments `segs` so far.
pub open spec fn lex_step(st: LexState, segs: Seq<PathSeg>, s: Seq<char>, i: int) -> (
    LexState,
    Seq<PathSeg>,
) {
    let c = s[i];
    match st {
        LexState::Start => if c == '"' {
            (LexState::Quoted((i + 1) as usize), segs)
        } else if c == '.' || c == '[' || c == ']' {
            (LexState::Fail, segs)
        } else {
            (LexState::Bare(i as usize), segs)
        },
        LexState::Bare(b) => if c == '.' {
            (LexState::Start, segs.push(PathSeg::Field(s.subrange(b as int, i))))
        } else if c == '[' {
            (LexState::InIndex(None), segs.push(PathSeg::Field(s.subrange(b as int, i))))
        } else if c == '"' || c == ']' {
            (LexState::Fail, segs)
        } else {
            (st, segs)
        },
        LexState::Quoted(b) => if c == '"' {
            (LexState::AfterSegment, segs.push(PathSeg::Field(s.subrange(b as int, i))))
        } else {
            (st, segs)
        },
        LexState::AfterSegment => if c == '.' {
            (LexState::Start, segs)
        } else if c == '[' {
            (LexState::InIndex(None), segs)
        } else {
            (LexState::Fail, segs)
        },
        LexState::InIndex(v) => if is_digit(c) {
            let n = match v {
                Some(x) => x as nat,
                None => 0,
            } * 10 + digit_of(c);
            if n > usize::MAX {
                (LexState::Fail, segs)
            } else {
                (LexState::InIndex(Some(n as usize)), segs)
            }
        } else if c == ']' {
            match v {
                Some(x) => (LexState::AfterSegment, segs.push(PathSeg::Index(x as nat))),
                None => (LexState::Fail, segs),
            }
        } else {
            (LexState::Fail, segs)
        },
        LexState::Fail => (st, segs),
    }
}

/// The state and segments after reading the first `n` chars of `s`.
pub open spec fn lex(s: Seq<char>, n: nat) -> (LexState, Seq<PathSeg>)
    decreases n,
{
    if n == 0 {
        (LexState::Start, Seq::empty())
    } else {
        let p = lex(s, (n - 1) as nat);
        lex_step(p.0, p.1, s, n - 1)
    }
}

/// The segments of the path `s`, or `None` where `s` is malformed.
///
/// Fields are separated by `.`; a field is either unquoted (no `.`, `"`,
/// `[` or `]` in it, not empty) or any text between double quotes; each field
/// may be followed by indices `[n]`.
pub open spec fn parse_path(s: Seq<char>) -> Option<Seq<PathSeg>> {
    let p = lex(s, s.len());
    match p.0 {
        LexState::Bare(b) => Some(p.1.push(PathSeg::Field(s.subrange(b as int, s.len() as int)))),
        LexState::AfterSegment => Some(p.1),
        _ => None,
    }
}

/// Why a lookup path was rejected.
#[derive(Clone, Copy, Debug, PartialEq, Eq, Structural)]
pub enum LookupError {
    /// The path does not follow the lookup grammar.
    Malformed,
}

/// A parsed lookup path.
#[derive(Clone, Debug, PartialEq, Eq)]
pub struct Lookup {
    segments: Vec<Segment>,
}

fn field_of(s: &str, from: usize, to: usize) -> (r: Segment)
    requires
        from <= to <= s@.len(),
    ensures
        r.view_seg() == PathSeg::Field(s@.subrange(from as int, to as int)),
{
    Segment::Field(String::from_str(s.substring_char(from, to)))
}

fn lex_step_exec(st: LexState, segs: &mut Vec<Segment>, s: &str, i: usize) -> (r: LexState)
    requires
        i < s@.len() <= usize::MAX,
        st matches LexState::Bare(b) ==> b <= i,
        st matches LexState::Quoted(b) ==> b <= i,
    ensures
        (r, segs_view(final(segs)@)) == lex_step(st, segs_view(old(segs)@), s@, i as int),
{
    let c = s.get_char(i);
    let ghost before = old(segs)@;
    let r = match st {
        LexState::Start => if c == '"' {
            LexState::Quoted(i + 1)
        } else if c == '.' || c == '[' || c == ']' {
            LexState::Fail
        } else {
            LexState::Bare(i)
        },
        LexState::Bare(b) => if c == '.' {
            segs.push(field_of(s, b, i));
            LexState::Start
        } else if c == '[' {
            segs.push(field_of(s, b, i));
            LexState::InIndex(None)
        } else if c == '"' || c == ']' {
            LexState::Fail
        } else {
            st
        },
        LexState::Quoted(b) => if c == '"' {
            segs.push(field_of(s, b, i));
            LexState::AfterSegment
        } else {
            st
        },
        LexState::AfterSegment => if c == '.' {
            LexState::Start
        } else if c == '[' {
            LexState::InIndex(None)
        } else {
            LexState::Fail
        },
        LexState::InIndex(v) => if '0' <= c && c <= '9' {
            let d = (c as u32 - '0' as u32) as usize;
            let x: usize = match v {
                Some(x) => x,
                None => 0,
            };
            if x > (usize::MAX - d) / 10 {
                assert(x * 10 + d > usize::MAX) by (nonlinear_arith)
                    requires
                        x > (usize::MAX - d) / 10,
                        d <= 9,
                ;
                LexState::Fail
            } else {
                assert(x * 10 + d <= usize::MAX) by (nonlinear_arith)
                    requires
                        x <= (usize::MAX - d) / 10,
                        d <= 9,
                ;
                LexState::InIndex(Some(x * 10 + d))
            }
        } else if c == ']' {
            match v {
                Some(x) => {
                    segs.push(Segment::Index(x));
                    LexState::AfterSegment
                },
                None => LexState::Fail,
            }
        } else {
            LexState::Fail
        },
        LexState::Fail => st,
    };
    assert(segs_view(segs@) =~= lex_step(st, segs_view(before), s@, i as int).1);
    r
}

impl Lookup {
    pub closed spec fn view_segs(&self) -> Seq<PathSeg> {
        segs_view(self.segments@)
    }

    /// Reads a lookup path such as `a."b c".d[0][1]`.
    pub fn parse(s: &str) -> (r: Result<Lookup, LookupError>)
        ensures
            r matches Ok(l) ==> parse_path(s@) == Some(l.view_segs()),
            r is Err <==> parse_path(s@) is None,
    {
        let n = s.unicode_len();
        let mut st = LexState::Start;
        let mut segs: Vec<Segment> = Vec::new();
        let mut i: usize = 0;
        assert(segs_view(segs@) =~= Seq::<PathSeg>::empty());
        while i < n
            invariant
                n == s@.len(),
                i <= n,
                (st, segs_view(segs@)) == lex(s@, i as nat),
                st matches LexState::Bare(b) ==> b <= i,
                st matches LexState::Quoted(b) ==> b <= i,
            decreases n - i,
        {
            st = lex_step_exec(st, &mut segs, s, i);
            i = i + 1;
        }
        match st {
            LexState::Bare(b) => {
                let ghost before = segs@;
                segs.push(field_of(s, b, n));
                assert(segs_view(segs@) =~= segs_view(before).push(
                    PathSeg::Field(s@.subrange(b as int, n as int)),
                ));
                Ok(Lookup { segments: segs })
            },
            LexState::AfterSegment => Ok(Lookup { segments: segs }),
            _ => Err(LookupError::Malformed),
        }
    }

    pub fn len(&self) -> (r: usize)
        ensures
            r == self.view_segs().len(),
    {
        self.segments.len()
    }

    pub fn get(&self, i: usize) -> (r: Option<&Segment>)
        ensures
            i < self.view_segs().len() ==> (r matches Some(seg) && seg.view_seg()
                == self.view_segs()[i as int]),
            i >= self.view_segs().len() ==> r is None,
    {
        if i < self.segments.len() {
            Some(&self.segments[i])
        } else {
            None
        }
    }

    /// The segment at `i`, to change in place.
    pub fn segment_mut(&mut self, i: usize) -> (r: &mut Segment)
        requires
            i < old(self).view_segs().len(),
        ensures
            (*r).view_seg() == old(self).view_segs()[i as int],
            final(self).view_segs() == old(self).view_segs().update(
                i as int,
                (*final(r)).view_seg(),
            ),
    {
        let r = &mut self.segments[i];
        r
    }

    /// The segments, first to last.
    pub fn as_slice(&self) -> (r: &[Segment])
        ensures
            segs_view(r@) == self.view_segs(),
    {
        self.segments.as_slice()
    }

    /// Gives the segments up, first to last.
    pub fn into_segments(self) -> (r: Vec<Segment>)
        ensures
            segs_view(r@) == self.view_segs(),
    {
        self.segments
    }
}

} // verus!
