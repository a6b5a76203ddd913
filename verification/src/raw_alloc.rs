//! Buffers of a fixed capacity that names of files and paths are written
//! into piece by piece and then turned into a string or a path.
use vstd::prelude::*;
use vstd::utf8::*;

verus! {

/// A buffer of at most `cap` bytes.
pub struct Mem {
    bytes: Vec<u8>,
    cap: usize,
}

impl Mem {
    #[verifier::type_invariant]
    spec fn fits(self) -> bool {
        self.bytes@.len() <= self.cap
    }

    /// The bytes written so far.
    pub closed spec fn contents(self) -> Seq<u8> {
        self.bytes@
    }

    /// How many bytes fit.
    pub closed spec fn capacity(self) -> nat {
        self.cap as nat
    }

    /// An empty buffer for `cap` bytes.
    pub fn new(cap: usize) -> (r: Mem)
        ensures
            r.contents() == Seq::<u8>::empty(),
            r.capacity() == cap,
    {
        Mem { bytes: Vec::new(), cap }
    }

    pub fn len(&self) -> (r: usize)
        ensures
            r == self.contents().len(),
    {
        self.bytes.len()
    }

    pub fn cap(&self) -> (r: usize)
        ensures
            r == self.capacity(),
    {
        self.cap
    }

    /// Appends `src`; it must fit.
    pub fn write(&mut self, src: &[u8])
        requires
            old(self).contents().len() + src@.len() <= old(self).capacity(),
        ensures
            final(self).contents() == old(self).contents() + src@,
            final(self).capacity() == old(self).capacity(),
    {
        let mut bytes = Vec::new();
        std::mem::swap(&mut bytes, &mut self.bytes);
        let ghost start = bytes@;
        let mut i: usize = 0;
        while i < src.len()
            invariant
                i <= src@.len(),
                bytes@ == start + src@.take(i as int),
            decreases src.len() - i,
        {
            bytes.push(src[i]);
            i += 1;
            assert(bytes@ =~= start + src@.take(i as int));
        }
        assert(src@.take(i as int) =~= src@);
        self.bytes = bytes;
    }

    /// The bytes written, the buffer given up.
    pub fn into_bytes(self) -> (r: Vec<u8>)
        ensures
            r@ == self.contents(),
    {
        self.bytes
    }
}

/// A buffer for a path or for a string.
pub enum RawAlloc {
    PathBuf(Mem),
    String(Mem),
}

/// `String::from_utf8`: std's documentation gives that it succeeds exactly
/// on valid UTF-8 and then holds the characters the bytes encode.
#[verifier::external_body]
fn string_from_utf8(bytes: Vec<u8>) -> (r: Option<String>)
    ensures
        valid_utf8(bytes@) <==> r is Some,
        r matches Some(s) ==> s@ == decode_utf8(bytes@),
{
    String::from_utf8(bytes).ok()
}

impl RawAlloc {
    /// An empty buffer for a path of `size` bytes.
    pub fn pathbuf(size: usize) -> (r: RawAlloc)
        ensures
            r matches RawAlloc::PathBuf(m) && m.contents().len() == 0 && m.capacity() == size,
    {
        RawAlloc::PathBuf(Mem::new(size))
    }

    /// An empty buffer for a string of `size` bytes.
    pub fn string(size: usize) -> (r: RawAlloc)
        ensures
            r matches RawAlloc::String(m) && m.contents().len() == 0 && m.capacity() == size,
    {
        RawAlloc::String(Mem::new(size))
    }

    /// The buffer, whichever kind it is.
    pub open spec fn mem(self) -> Mem {
        match self {
            RawAlloc::PathBuf(m) => m,
            RawAlloc::String(m) => m,
        }
    }

    /// The buffer to write into.
    pub fn get_mem(&mut self) -> (r: &mut Mem)
        ensures
            *r == old(self).mem(),
            match *old(self) {
                RawAlloc::PathBuf(_) => *final(self) == RawAlloc::PathBuf(*final(r)),
                RawAlloc::String(_) => *final(self) == RawAlloc::String(*final(r)),
            },
    {
        match self {
            RawAlloc::PathBuf(mem) => mem,
            RawAlloc::String(mem) => mem,
        }
    }

    /// Appends `src`; it must fit in the buffer.
    pub fn write(&mut self, src: &[u8])
        requires
            old(self).mem().contents().len() + src@.len() <= old(self).mem().capacity(),
        ensures
            final(self).mem().contents() == old(self).mem().contents() + src@,
            final(self).mem().capacity() == old(self).mem().capacity(),
            (*old(self) is PathBuf) == (*final(self) is PathBuf),
    {
        let mem = self.get_mem();
        mem.write(src);
    }

    /// The bytes of the path written.
    pub fn finalize_pathbuf(self) -> (r: Vec<u8>)
        ensures
            r@ == self.mem().contents(),
    {
        match self {
            RawAlloc::PathBuf(mem) => mem.into_bytes(),
            RawAlloc::String(mem) => mem.into_bytes(),
        }
    }

    /// The string written; the bytes must be valid UTF-8.
    pub fn finalize_string(self) -> (r: String)
        requires
            valid_utf8(self.mem().contents()),
        ensures
            r@ == decode_utf8(self.mem().contents()),
    {
        let bytes = match self {
            RawAlloc::PathBuf(mem) => mem.into_bytes(),
            RawAlloc::String(mem) => mem.into_bytes(),
        };
        match string_from_utf8(bytes) {
            Some(s) => s,
            None => String::new(),
        }
    }
}

} // verus!
