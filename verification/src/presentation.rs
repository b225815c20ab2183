//! The renderers of frames: what they are handed, and how frames come back from another process.
use vstd::prelude::*;
use vstd::string::*;

verus! {

/// The seconds that a renderer in another process has.
pub const PORTABLE_RENDER_SECONDS: u64 = 2;

/// What a renderer is published as.
#[derive(Clone, Copy, Debug, PartialEq, Eq, Structural)]
pub struct FrameRendererContract;

impl FrameRendererContract {
    /// The key it is published under.
    pub fn key() -> (r: &'static str)
        ensures
            r@ == "rsi.terminal.presentation"@,
    {
        "rsi.terminal.presentation"
    }
}

/// The renderer that is linked into this program.
#[derive(Clone, Copy, Debug, PartialEq, Eq, Structural)]
pub struct LinkedPresentationFactory;

/// The renderer of another process.
#[derive(Clone, Copy, Debug, PartialEq, Eq, Structural)]
pub struct PortablePresentationFactory;

impl LinkedPresentationFactory {
    /// Takes in its configuration: there is none.
    pub fn prepare(&self, null: bool) -> (r: Result<(), &'static str>)
        ensures
            null ==> r is Ok,
            !null ==> (r matches Err(e) && e@ == "linked renderer configuration must be null"@),
    {
        if null {
            Ok(())
        } else {
            Err("linked renderer configuration must be null")
        }
    }
}

impl PortablePresentationFactory {
    /// Takes in its configuration: there is none.
    pub fn prepare(&self, null: bool) -> (r: Result<(), &'static str>)
        ensures
            null ==> r is Ok,
            !null ==> (r matches Err(e) && e@ == "portable renderer configuration must be null"@),
    {
        if null {
            Ok(())
        } else {
            Err("portable renderer configuration must be null")
        }
    }

    /// Takes in whether the service that it needs is there.
    pub fn activate(&self, supplied: bool) -> (r: Result<(), &'static str>)
        ensures
            supplied ==> r is Ok,
            !supplied ==> (r matches Err(e) && e@ == "missing renderer"@),
    {
        if supplied {
            Ok(())
        } else {
            Err("missing renderer")
        }
    }
}

/// Why a frame is not drawn, if it is not. `problem` is what is wrong with the request itself.
pub fn check_request(
    stopped: bool,
    problem: Option<&'static str>,
    length: usize,
    expected: usize,
) -> (r: Result<(), &'static str>)
    ensures
        r is Ok <==> !stopped && problem is None && length == expected,
        stopped ==> (r matches Err(e) && e@ == "presentation stopped"@),
        !stopped ==> (problem matches Some(p) ==> (r matches Err(e) && e@ == p@)),
        !stopped && problem is None && length != expected ==> (r matches Err(e) && e@
            == "scene source length mismatch"@),
{
    if stopped {
        return Err("presentation stopped");
    }
    if let Some(problem) = problem {
        return Err(problem);
    }
    if length != expected {
        return Err("scene source length mismatch");
    }
    Ok(())
}

/// What is told when a renderer in another process takes too long.
pub fn timed_out() -> (r: &'static str)
    ensures
        r@ == "terminal rendering exceeded 2 seconds"@,
{
    "terminal rendering exceeded 2 seconds"
}

/// Some bytes, in pieces of at most `limit`, each as long as it can be.
pub open spec fn fragments_of(s: Seq<u8>, limit: int) -> Seq<Seq<u8>>
    decreases s.len(),
{
    if s.len() == 0 || limit <= 0 {
        seq![]
    } else if s.len() <= limit {
        seq![s]
    } else {
        seq![s.take(limit)] + fragments_of(s.skip(limit), limit)
    }
}

/// Pieces put together.
pub open spec fn joined(v: Seq<Seq<u8>>) -> Seq<u8>
    decreases v.len(),
{
    if v.len() == 0 {
        seq![]
    } else {
        v[0] + joined(v.drop_first())
    }
}

/// What pieces say.
pub open spec fn pieces_of(v: Seq<Vec<u8>>) -> Seq<Seq<u8>> {
    Seq::new(v.len(), |i: int| v[i]@)
}

/// Cuts some bytes into pieces of at most `limit`.
pub fn fragments(bytes: &Vec<u8>, limit: usize) -> (r: Vec<Vec<u8>>)
    requires
        limit > 0,
    ensures
        pieces_of(r@) == fragments_of(bytes@, limit as int),
{
    let mut out: Vec<Vec<u8>> = Vec::new();
    let mut at: usize = 0;
    proof {
        assert(bytes@.skip(0) =~= bytes@);
        assert(pieces_of(out@) + fragments_of(bytes@, limit as int) =~= fragments_of(
            bytes@,
            limit as int,
        ));
    }
    while at < bytes.len()
        invariant
            at <= bytes@.len(),
            limit > 0,
            fragments_of(bytes@, limit as int) == pieces_of(out@) + fragments_of(
                bytes@.skip(at as int),
                limit as int,
            ),
        decreases bytes@.len() - at,
    {
        let ghost rest = bytes@.skip(at as int);
        let ghost before = pieces_of(out@);
        let to: usize = if bytes.len() - at <= limit {
            bytes.len()
        } else {
            at + limit
        };
        let piece = vstd::slice::slice_subrange(bytes.as_slice(), at, to);
        let mut copy: Vec<u8> = Vec::new();
        copy.extend_from_slice(piece);
        proof {
            assert(copy@ =~= bytes@.subrange(at as int, to as int));
        }
        let ghost seen = copy@;
        out.push(copy);
        proof {
            assert(pieces_of(out@) =~= before.push(seen));
            assert(bytes@.skip(to as int) =~= rest.skip(to - at));
            if rest.len() <= limit {
                assert(seen =~= rest);
                assert(bytes@.skip(to as int) =~= Seq::<u8>::empty());
                assert(before + seq![rest] =~= before.push(seen) + fragments_of(
                    bytes@.skip(to as int),
                    limit as int,
                ));
            } else {
                assert(seen =~= rest.take(limit as int));
                assert(before + (seq![rest.take(limit as int)] + fragments_of(
                    rest.skip(limit as int),
                    limit as int,
                )) =~= before.push(seen) + fragments_of(bytes@.skip(to as int), limit as int));
            }
        }
        at = to;
    }
    proof {
        assert(bytes@.skip(at as int) =~= Seq::<u8>::empty());
        assert(pieces_of(out@) + Seq::<Seq<u8>>::empty() =~= pieces_of(out@));
    }
    out
}

/// A frame that comes in pieces.
#[derive(Debug)]
pub struct FrameBytes {
    bytes: Vec<u8>,
    fragment: usize,
    frame: usize,
}

/// What a [`FrameBytes`] says.
#[verifier::ext_equal]
pub struct FrameBytesView {
    pub bytes: Seq<u8>,
    /// The bytes that a piece, and that the whole, may have.
    pub fragment: usize,
    pub frame: usize,
}

impl View for FrameBytes {
    type V = FrameBytesView;

    closed spec fn view(&self) -> FrameBytesView {
        FrameBytesView { bytes: self.bytes@, fragment: self.fragment, frame: self.frame }
    }
}

/// Whether a piece is taken.
pub open spec fn takes(v: FrameBytesView, piece: Seq<u8>, capabilities: bool) -> bool {
    !capabilities && piece.len() > 0 && piece.len() <= v.fragment && v.bytes.len() + piece.len()
        <= v.frame
}

impl FrameBytes {
    /// The whole is within its bound.
    pub closed spec fn wf(&self) -> bool {
        self.bytes@.len() <= self.frame
    }

    pub fn new(fragment: usize, frame: usize) -> (r: FrameBytes)
        ensures
            r.wf(),
            r@ == (FrameBytesView { bytes: seq![], fragment, frame }),
    {
        let r = FrameBytes { bytes: Vec::new(), fragment, frame };
        proof {
            assert(r@ =~= FrameBytesView { bytes: seq![], fragment, frame });
        }
        r
    }

    /// Takes in a piece. One that is empty, too long, or comes with anything else is not taken.
    pub fn push(&mut self, piece: &Vec<u8>, capabilities: bool) -> (r: Result<(), &'static str>)
        requires
            old(self).wf(),
        ensures
            final(self).wf(),
            r is Ok <==> takes(old(self)@, piece@, capabilities),
            r is Ok ==> final(self)@ == (FrameBytesView {
                bytes: old(self)@.bytes + piece@,
                ..old(self)@
            }),
            r matches Err(e) ==> e@ == "invalid terminal frame fragment"@ && final(self)@ == old(
                self,
            )@,
    {
        if capabilities || piece.len() == 0 || piece.len() > self.fragment || piece.len()
            > self.frame - self.bytes.len() {
            return Err("invalid terminal frame fragment");
        }
        let ghost v = self@;
        let ghost before = self.bytes@;
        self.bytes.extend_from_slice(piece.as_slice());
        proof {
            assert(self.bytes@ =~= before + piece@);
            assert(self@ =~= FrameBytesView { bytes: v.bytes + piece@, ..v });
        }
        Ok(())
    }

    /// Hands out the whole.
    pub fn into_bytes(self) -> (r: Vec<u8>)
        ensures
            r@ == self@.bytes,
    {
        self.bytes
    }

    /// What every such frame keeps.
    pub proof fn law_bounded(&self)
        requires
            self.wf(),
        ensures
            self@.bytes.len() <= self@.frame,
    {
    }
}

/// The pieces of some bytes are neither empty nor too long, and put together they are the bytes.
pub proof fn law_fragments(s: Seq<u8>, limit: int)
    requires
        limit > 0,
    ensures
        joined(fragments_of(s, limit)) == s,
        forall|i: int|
            0 <= i < fragments_of(s, limit).len() ==> 0 < (#[trigger] fragments_of(
                s,
                limit,
            )[i]).len() <= limit,
    decreases s.len(),
{
    let v = fragments_of(s, limit);
    if s.len() == 0 {
        assert(joined(v) =~= s);
    } else if s.len() <= limit {
        assert(v.drop_first() =~= Seq::<Seq<u8>>::empty());
        assert(joined(v.drop_first()) =~= Seq::<u8>::empty());
        assert(joined(v) == v[0] + joined(v.drop_first()));
        assert(joined(v) =~= s);
    } else {
        let rest = fragments_of(s.skip(limit), limit);
        law_fragments(s.skip(limit), limit);
        assert(v.drop_first() =~= rest);
        assert(joined(v) =~= s);
        assert forall|i: int| 0 <= i < v.len() implies 0 < (#[trigger] v[i]).len() <= limit by {
            if i > 0 {
                assert(v[i] == rest[i - 1]);
            }
        }
    }
}

/// How the renderers of a client are started.
#[derive(Debug)]
pub struct Started {
    /// Whether they are not the one that is linked into this program.
    pub custom: bool,
    /// Whether there is a catalog to find such ones in.
    pub catalog: bool,
    /// Why they could not be started.
    pub problem: Option<String>,
    /// Whether one of them is published.
    pub published: bool,
}

/// Who owns the renderers of a client.
#[derive(Clone, Copy, Debug, PartialEq, Eq, Structural)]
pub struct Owner {
    pub published: bool,
    pub closed: bool,
}

impl Owner {
    /// Takes in how the renderers were started.
    pub fn start(s: Started) -> (r: Result<Owner, String>)
        ensures
            if s.custom && !s.catalog {
                r matches Err(e) && e@
                    == "custom terminal presentation requires the application's catalog source"@
            } else {
                match s.problem {
                    Some(problem) => r matches Err(e) && e@ == problem@,
                    None => if s.published {
                        r == Ok::<Owner, String>(Owner { published: true, closed: false })
                    } else {
                        r matches Err(e) && e@ == "presentation Profile did not publish a renderer"@
                    },
                }
            },
    {
        if s.custom && !s.catalog {
            return Err(
                "custom terminal presentation requires the application's catalog source".to_owned(),
            );
        }
        match s.problem {
            Some(problem) => Err(problem),
            None => if s.published {
                Ok(Owner { published: true, closed: false })
            } else {
                Err("presentation Profile did not publish a renderer".to_owned())
            },
        }
    }

    /// Takes in a change: whether a renderer is published now.
    pub fn changed(&mut self, published: bool)
        ensures
            *final(self) == (Owner { published, ..*old(self) }),
    {
        self.published = published;
    }

    /// Whether there is a renderer.
    pub fn renderer(&self) -> (r: bool)
        ensures
            r == self.published,
    {
        self.published
    }

    /// Whether a frame can be asked for: not while there is no renderer.
    pub fn render(&self) -> (r: Result<(), &'static str>)
        ensures
            self.published ==> r is Ok,
            !self.published ==> (r matches Err(e) && e@
                == "terminal presentation renderer unavailable"@),
    {
        if self.renderer() {
            Ok(())
        } else {
            Err("terminal presentation renderer unavailable")
        }
    }

    /// Takes in that the renderers were stopped, and whether nothing was left of them.
    pub fn close(&mut self, clean: bool) -> (r: Result<(), &'static str>)
        ensures
            *final(self) == (Owner { closed: true, ..*old(self) }),
            clean ==> r is Ok,
            !clean ==> (r matches Err(e) && e@ == "terminal presentation cleanup failed"@),
    {
        self.closed = true;
        if clean {
            Ok(())
        } else {
            Err("terminal presentation cleanup failed")
        }
    }
}

/// Every piece but the last is as long as it may be.
pub proof fn law_full_fragments(s: Seq<u8>, limit: int, i: int)
    requires
        limit > 0,
        0 <= i < fragments_of(s, limit).len() - 1,
    ensures
        fragments_of(s, limit)[i].len() == limit,
    decreases s.len(),
{
    if s.len() > limit {
        let rest = fragments_of(s.skip(limit), limit);
        if i > 0 {
            law_full_fragments(s.skip(limit), limit, i - 1);
            assert(fragments_of(s, limit)[i] == rest[i - 1]);
        }
    }
}

/// A piece is taken where it is not empty, within the bound of a piece, carries nothing else, and
/// the whole stays within its own bound.
pub proof fn law_takes(v: FrameBytesView, piece: Seq<u8>)
    ensures
        !takes(v, piece, true),
        takes(v, piece, false) <==> 0 < piece.len() <= v.fragment && v.bytes.len() + piece.len()
            <= v.frame,
{
}

} // verus!
