//! The `debug` scheme: a resource that hands console command lines to its
//! readers, one buffer's worth at a time.
use vstd::prelude::*;

verus! {

/// The path that every debug resource reports.
pub open spec fn debug_path() -> Seq<u8> {
    seq![100u8, 101u8, 98u8, 117u8, 103u8, 58u8]
}

/// The smaller of two lengths.
pub open spec fn min_len(a: int, b: int) -> int {
    if a < b {
        a
    } else {
        b
    }
}

/// An open debug resource: the part of the last command line that no read
/// has taken yet.
pub struct DebugResource {
    pub command: Vec<u8>,
}

impl DebugResource {
    /// An independent resource with the same pending command.
    pub fn dup(&self) -> (r: DebugResource)
        ensures
            r.command@ == self.command@,
    {
        let mut command: Vec<u8> = Vec::new();
        let mut i: usize = 0;
        while i < self.command.len()
            invariant
                i <= self.command@.len(),
                command@ == self.command@.take(i as int),
            decreases self.command@.len() - i,
        {
            command.push(self.command[i]);
            i = i + 1;
            assert(command@ =~= self.command@.take(i as int));
        }
        assert(command@ =~= self.command@);
        DebugResource { command }
    }

    /// Whether a read must first wait for a new command line, none of the
    /// last one being left.
    pub fn needs_command(&self) -> (r: bool)
        ensures
            r == (self.command@.len() == 0),
    {
        self.command.len() == 0
    }

    /// Nothing is held back on the way to the console: syncing succeeds and
    /// changes nothing.
    pub fn sync(&mut self) -> (r: Result<(), ()>)
        ensures
            r is Ok,
            *final(self) == *old(self),
    {
        Ok(())
    }

    /// Writes as much of `debug:` as fits at the start of `buf`, leaves the
    /// rest of `buf` as it was, and returns the number of bytes written.
    pub fn path(&self, buf: &mut [u8]) -> (r: usize)
        ensures
            r == min_len(old(buf)@.len() as int, debug_path().len() as int),
            final(buf)@ == debug_path().take(r as int) + old(buf)@.skip(r as int),
    {
        let path: [u8; 6] = [100u8, 101u8, 98u8, 117u8, 103u8, 58u8];
        assert(path@ =~= debug_path());
        let mut i: usize = 0;
        while i < buf.len() && i < 6
            invariant
                i <= 6,
                i <= old(buf)@.len(),
                path@ == debug_path(),
                buf@.len() == old(buf)@.len(),
                buf@ == debug_path().take(i as int) + old(buf)@.skip(i as int),
            decreases 6 - i,
        {
            buf[i] = path[i];
            i = i + 1;
            assert(buf@ =~= debug_path().take(i as int) + old(buf)@.skip(i as int));
        }
        i
    }

    /// Moves the front of the pending command into `buf`, as much as fits,
    /// leaves the rest of `buf` as it was, and returns the number of bytes
    /// moved.
    pub fn read(&mut self, buf: &mut [u8]) -> (r: usize)
        ensures
            r == min_len(old(buf)@.len() as int, old(self).command@.len() as int),
            final(buf)@ == old(self).command@.take(r as int) + old(buf)@.skip(r as int),
            final(self).command@ == old(self).command@.skip(r as int),
    {
        let mut i: usize = 0;
        while i < buf.len() && self.command.len() != 0
            invariant
                i <= old(buf)@.len(),
                i <= old(self).command@.len(),
                buf@.len() == old(buf)@.len(),
                buf@ == old(self).command@.take(i as int) + old(buf)@.skip(i as int),
                self.command@ == old(self).command@.skip(i as int),
            decreases old(buf)@.len() - i,
        {
            let b: u8 = self.command.remove(0);
            buf[i] = b;
            i = i + 1;
            assert(buf@ =~= old(self).command@.take(i as int) + old(buf)@.skip(i as int));
            assert(self.command@ =~= old(self).command@.skip(i as int));
        }
        i
    }
}

/// The scheme that opens debug resources.
pub struct DebugScheme;

impl DebugScheme {
    /// A new debug scheme, boxed for the scheme table.
    pub fn new() -> (r: Box<DebugScheme>) {
        Box::new(DebugScheme)
    }

    /// The scheme's name, `debug`.
    pub fn scheme(&self) -> (r: &'static str)
        ensures
            r@ == "debug"@,
    {
        "debug"
    }

    /// Opens a resource with no pending command; the path and flags are not
    /// looked at.
    pub fn open(&mut self, _path: &str, _flags: usize) -> (r: DebugResource)
        ensures
            r.command@ == Seq::<u8>::empty(),
    {
        DebugResource { command: Vec::new() }
    }
}

} // verus!
