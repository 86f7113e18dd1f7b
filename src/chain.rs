use vstd::prelude::*;

verus! {

/// Which of a run of handles a chained read draws from next.
///
/// The handles themselves stay with the caller, who reads from the one that
/// [`ChainCursor::source`] names and reports what came back to
/// [`ChainCursor::after_read`]. A handle is drawn from until it reports the end
/// of its stream, and then the next one is taken; no handle is gone back to.
pub struct ChainCursor {
    current: usize,
    count: usize,
}

impl View for ChainCursor {
    /// The index of the handle drawn from next, and the number of handles.
    type V = (nat, nat);

    closed spec fn view(&self) -> (nat, nat) {
        (self.current as nat, self.count as nat)
    }
}

/// What one reported read does to a cursor in state `before`: a read that
/// filled no byte of a buffer with room ends the current handle and moves to the
/// next one (`deliver` false); any other read is handed on as it is.
pub open spec fn stepped(
    before: (nat, nat),
    requested: nat,
    got: nat,
    deliver: bool,
    after: (nat, nat),
) -> bool {
    &&& deliver == (requested == 0 || got > 0)
    &&& deliver ==> after == before
    &&& !deliver ==> after == (before.0 + 1, before.1)
}

impl ChainCursor {
    /// The cursor never stands past the last handle.
    pub closed spec fn wf(&self) -> bool {
        self.current <= self.count
    }

    /// A cursor over `count` handles, at the first one.
    pub fn new(count: usize) -> (r: ChainCursor)
        ensures
            r.wf(),
            r@ == (0nat, count as nat),
    {
        ChainCursor { current: 0, count }
    }

    /// The handle to read from next, or none once every handle has ended.
    /// After that it stays none: an exhausted chain yields no more bytes.
    pub fn source(&self) -> (r: Option<usize>)
        requires
            self.wf(),
        ensures
            self@.0 < self@.1 ==> r == Some(self@.0 as usize),
            self@.0 >= self@.1 ==> r is None,
    {
        if self.current < self.count {
            Some(self.current)
        } else {
            None
        }
    }

    /// Whether every handle has ended.
    pub fn is_exhausted(&self) -> (r: bool)
        requires
            self.wf(),
        ensures
            r == (self@.0 >= self@.1),
    {
        self.current >= self.count
    }

    /// Takes note of a read of the current handle into a buffer of `requested`
    /// bytes, which gave `got` bytes. Returns whether those bytes are handed to
    /// the reader; when not, the handle has ended and the cursor moved on.
    pub fn after_read(&mut self, requested: usize, got: usize) -> (deliver: bool)
        requires
            old(self).wf(),
            old(self)@.0 < old(self)@.1,
            got <= requested,
        ensures
            final(self).wf(),
            stepped(old(self)@, requested as nat, got as nat, deliver, final(self)@),
    {
        if requested > 0 && got == 0 {
            self.current = self.current + 1;
            false
        } else {
            true
        }
    }
}

/// The parts one after another.
pub open spec fn joined_parts(parts: Seq<Seq<u8>>) -> Seq<u8>
    decreases parts.len(),
{
    if parts.len() == 0 {
        Seq::empty()
    } else {
        joined_parts(parts.drop_last()) + parts.last()
    }
}

/// What a chain over handles with `contents` has yielded once it stands at
/// handle `cur`, `pos` bytes into it.
pub open spec fn drawn(contents: Seq<Seq<u8>>, cur: nat, pos: nat) -> Seq<u8> {
    if cur < contents.len() {
        joined_parts(contents.take(cur as int)) + contents[cur as int].take(pos as int)
    } else {
        joined_parts(contents)
    }
}

/// Reading a chain gives the contents of its handles one after another, with
/// no byte lost, repeated or moved across the border of two handles.
///
/// Let the handles hold `contents`, and let the reader stand at `pos` in the
/// current one, having had `drawn(contents, ..)`. A read of that handle gives
/// its next `got` bytes, and none only at its end (or into an empty buffer).
/// Whatever the cursor then decides, the reader has had exactly what the
/// cursor's new place says; once the cursor is past the last handle, that is the
/// whole concatenation.
pub proof fn lemma_read_extends_drawn(
    contents: Seq<Seq<u8>>,
    before: (nat, nat),
    pos: nat,
    requested: nat,
    got: nat,
    deliver: bool,
    after: (nat, nat),
)
    requires
        before.1 == contents.len(),
        before.0 < before.1,
        pos + got <= contents[before.0 as int].len(),
        got <= requested,
        requested > 0 ==> (got == 0 <==> pos == contents[before.0 as int].len()),
        stepped(before, requested, got, deliver, after),
    ensures
        after.0 <= after.1 == contents.len(),
        deliver ==> drawn(contents, after.0, pos + got) == drawn(contents, before.0, pos)
            + contents[before.0 as int].subrange(pos as int, (pos + got) as int),
        !deliver ==> drawn(contents, after.0, 0) == drawn(contents, before.0, pos),
        after.0 == contents.len() ==> drawn(contents, after.0, 0) == joined_parts(contents),
{
    let c = contents[before.0 as int];
    if deliver {
        assert(c.take(pos as int) + c.subrange(pos as int, (pos + got) as int) =~= c.take(
            (pos + got) as int,
        ));
    } else {
        let k = before.0 as int;
        assert(contents.take(k + 1).drop_last() =~= contents.take(k));
        assert(c.take(pos as int) =~= c);
        if k + 1 == contents.len() {
            assert(contents.take(k + 1) =~= contents);
        } else {
            assert(contents[k + 1].take(0) =~= Seq::<u8>::empty());
        }
    }
}

/// A chain that has not yet been read has yielded nothing.
pub proof fn lemma_drawn_start(contents: Seq<Seq<u8>>)
    ensures
        drawn(contents, 0, 0) == Seq::<u8>::empty(),
{
    if contents.len() > 0 {
        assert(contents.take(0) =~= Seq::<Seq<u8>>::empty());
        assert(contents[0].take(0) =~= Seq::<u8>::empty());
    }
}

} // verus!
