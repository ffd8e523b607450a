//! The container variants a model file can use, recognised by the 4-byte
//! magic at its start, and how they are read and written.

use vstd::prelude::*;

use crate::cursor::{le_u32_at, read_u32, u32_le_bytes, write_u32, ByteCursor};
use crate::cursor::lemma_u32_le_round_trip;
use crate::errors::LoadError;

verus! {

/// Magic constant for ggml files (unversioned).
pub const FILE_MAGIC_GGML: u32 = 0x67676d6c;

/// Magic constant for ggml files (versioned, ggmf).
pub const FILE_MAGIC_GGMF: u32 = 0x67676d66;

/// Magic constant for ggml files (versioned, ggjt).
pub const FILE_MAGIC_GGJT: u32 = 0x67676a74;

/// Magic constant for ggla files (LoRA adapter).
pub const FILE_MAGIC_GGLA: u32 = 0x67676C61;

/// The format of the file containing the model.
#[derive(Debug, Copy, Clone, PartialEq, Eq, Structural)]
pub enum ContainerType {
    /// Legacy format, the oldest tensor file format; carries no version.
    Ggml,
    /// Legacy format that introduced versioning. Newer than Ggml, older
    /// than Ggjt.
    Ggmf(u32),
    /// Memory-mappable format; the version is read from the file.
    Ggjt(u32),
    /// LoRA adapter format.
    Ggla(u32),
}

/// The bytes that `write` emits for `t`: the magic, then the version for
/// every variant but the unversioned one.
pub open spec fn spec_serialize(t: ContainerType) -> Seq<u8> {
    match t {
        ContainerType::Ggml => u32_le_bytes(FILE_MAGIC_GGML),
        ContainerType::Ggmf(v) => u32_le_bytes(FILE_MAGIC_GGMF) + u32_le_bytes(v),
        ContainerType::Ggjt(v) => u32_le_bytes(FILE_MAGIC_GGJT) + u32_le_bytes(v),
        ContainerType::Ggla(v) => u32_le_bytes(FILE_MAGIC_GGLA) + u32_le_bytes(v),
    }
}

/// What detection yields on the bytes of `s` from position `p`: the
/// container type and the position after it, or nothing where the magic is
/// unknown or the data runs short.
pub open spec fn spec_detect(s: Seq<u8>, p: int) -> Option<(ContainerType, int)> {
    if p < 0 || p + 4 > s.len() {
        None
    } else {
        let m = le_u32_at(s, p);
        if m == FILE_MAGIC_GGML {
            Some((ContainerType::Ggml, p + 4))
        } else if m == FILE_MAGIC_GGMF || m == FILE_MAGIC_GGJT || m == FILE_MAGIC_GGLA {
            if p + 8 > s.len() {
                None
            } else {
                let v = le_u32_at(s, p + 4) as u32;
                if m == FILE_MAGIC_GGMF {
                    Some((ContainerType::Ggmf(v), p + 8))
                } else if m == FILE_MAGIC_GGJT {
                    Some((ContainerType::Ggjt(v), p + 8))
                } else {
                    Some((ContainerType::Ggla(v), p + 8))
                }
            }
        } else {
            None
        }
    }
}

impl ContainerType {
    /// Does this container type support mmap? Only the Ggjt variant does;
    /// this is a property of the variant, not of any file's contents.
    pub fn support_mmap(&self) -> (r: bool)
        ensures
            r == (self is Ggjt),
    {
        match self {
            ContainerType::Ggml => false,
            ContainerType::Ggmf(_) => false,
            ContainerType::Ggla(_) => false,
            ContainerType::Ggjt(_) => true,
        }
    }

    /// Read the container type from the stream: the 4-byte magic, then the
    /// version for the versioned variants. An unknown magic is a fatal
    /// error carrying the raw value; a short stream is a short-read error.
    pub fn read(c: &mut ByteCursor) -> (r: Result<ContainerType, LoadError>)
        ensures
            final(c).data == old(c).data,
            ({
                let s = old(c).data@;
                let p = old(c).pos as int;
                let m = le_u32_at(s, p);
                &&& (p + 4 > s.len() ==> r == Result::<ContainerType, LoadError>::Err(
                    LoadError::ReadExactFailed { bytes: 4 },
                ) && final(c).pos == p)
                &&& (p + 4 <= s.len() && !(m == FILE_MAGIC_GGML || m == FILE_MAGIC_GGMF || m
                    == FILE_MAGIC_GGJT || m == FILE_MAGIC_GGLA) ==> r == Result::<
                    ContainerType,
                    LoadError,
                >::Err(LoadError::InvalidMagic { magic: m as u32 }) && final(c).pos == p + 4)
                &&& (p + 4 <= s.len() && (m == FILE_MAGIC_GGMF || m == FILE_MAGIC_GGJT || m
                    == FILE_MAGIC_GGLA) && p + 8 > s.len() ==> r == Result::<
                    ContainerType,
                    LoadError,
                >::Err(LoadError::ReadExactFailed { bytes: 4 }) && final(c).pos == p + 4)
                &&& (spec_detect(s, p) is Some ==> r is Ok && Some((r->Ok_0, final(c).pos as int))
                    == spec_detect(s, p))
                &&& (spec_detect(s, p) is None ==> r is Err)
            }),
    {
        let magic = match read_u32(c) {
            Ok(m) => m,
            Err(e) => {
                return Err(e);
            },
        };
        if magic == FILE_MAGIC_GGML {
            Ok(ContainerType::Ggml)
        } else if magic == FILE_MAGIC_GGMF {
            match read_u32(c) {
                Ok(v) => Ok(ContainerType::Ggmf(v)),
                Err(e) => Err(e),
            }
        } else if magic == FILE_MAGIC_GGJT {
            match read_u32(c) {
                Ok(v) => Ok(ContainerType::Ggjt(v)),
                Err(e) => Err(e),
            }
        } else if magic == FILE_MAGIC_GGLA {
            match read_u32(c) {
                Ok(v) => Ok(ContainerType::Ggla(v)),
                Err(e) => Err(e),
            }
        } else {
            Err(LoadError::InvalidMagic { magic })
        }
    }

    /// Write the container type: the magic, then the version for the
    /// versioned variants.
    pub fn write(&self, out: &mut Vec<u8>)
        ensures
            final(out)@ == old(out)@ + spec_serialize(*self),
    {
        match self {
            ContainerType::Ggml => {
                write_u32(out, FILE_MAGIC_GGML);
            },
            ContainerType::Ggmf(version) => {
                write_u32(out, FILE_MAGIC_GGMF);
                write_u32(out, *version);
            },
            ContainerType::Ggjt(version) => {
                write_u32(out, FILE_MAGIC_GGJT);
                write_u32(out, *version);
            },
            ContainerType::Ggla(version) => {
                write_u32(out, FILE_MAGIC_GGLA);
                write_u32(out, *version);
            },
        }
        proof {
            assert(final(out)@ =~= old(out)@ + spec_serialize(*self));
        }
    }
}

/// Round trip: for every container variant and version, detecting the
/// serialized bytes gives the variant back and consumes exactly them.
pub proof fn lemma_container_round_trip(t: ContainerType)
    ensures
        spec_detect(spec_serialize(t), 0) == Some((t, spec_serialize(t).len() as int)),
{
    let s = spec_serialize(t);
    match t {
        ContainerType::Ggml => {
            lemma_u32_le_round_trip(FILE_MAGIC_GGML);
        },
        ContainerType::Ggmf(v) => {
            lemma_serialized_versioned(FILE_MAGIC_GGMF, v);
        },
        ContainerType::Ggjt(v) => {
            lemma_serialized_versioned(FILE_MAGIC_GGJT, v);
        },
        ContainerType::Ggla(v) => {
            lemma_serialized_versioned(FILE_MAGIC_GGLA, v);
        },
    }
}

/// The two little-endian words of a versioned header read back as the
/// magic and the version.
proof fn lemma_serialized_versioned(magic: u32, v: u32)
    ensures
        le_u32_at(u32_le_bytes(magic) + u32_le_bytes(v), 0) == magic,
        le_u32_at(u32_le_bytes(magic) + u32_le_bytes(v), 4) == v,
{
    let s = u32_le_bytes(magic) + u32_le_bytes(v);
    lemma_u32_le_round_trip(magic);
    lemma_u32_le_round_trip(v);
    assert(s[0] == u32_le_bytes(magic)[0]);
    assert(s[1] == u32_le_bytes(magic)[1]);
    assert(s[2] == u32_le_bytes(magic)[2]);
    assert(s[3] == u32_le_bytes(magic)[3]);
    assert(s[4] == u32_le_bytes(v)[0]);
    assert(s[5] == u32_le_bytes(v)[1]);
    assert(s[6] == u32_le_bytes(v)[2]);
    assert(s[7] == u32_le_bytes(v)[3]);
}

} // verus!
