//! Decoding of the variable references (`partition:name`) and assignments
//! (`partition:name=value`) that name the variables to read, write or delete.

use vstd::prelude::*;
use vstd::string::StringSliceAdditionalSpecFns;

use apple_nvram::VarType;

use crate::error::NvramError;
use crate::escape::{unescape, unescape_bytes};

verus! {

#[verifier::external_type_specification]
pub struct ExVarType(apple_nvram::VarType);

/// The bytes of the partition name `common`.
pub open spec fn common_name() -> Seq<u8> {
    seq![0x63u8, 0x6f, 0x6d, 0x6d, 0x6f, 0x6e]
}

/// The bytes of the partition name `system`.
pub open spec fn system_name() -> Seq<u8> {
    seq![0x73u8, 0x79, 0x73, 0x74, 0x65, 0x6d]
}

/// The variable type that a partition name stands for.
pub open spec fn partition_of(name: Seq<u8>) -> Option<VarType> {
    if name == common_name() {
        Some(VarType::Common)
    } else if name == system_name() {
        Some(VarType::System)
    } else {
        None
    }
}

/// `i` is the position of the first `c` in `s`.
pub open spec fn is_first(s: Seq<u8>, c: u8, i: int) -> bool {
    0 <= i < s.len() && s[i] == c && forall|j: int| 0 <= j < i ==> s[j] != c
}

/// The position of the first `c` in `s`, if there is one.
pub open spec fn first_index(s: Seq<u8>, c: u8) -> Option<int> {
    if exists|i: int| is_first(s, c, i) {
        Some(choose|i: int| is_first(s, c, i))
    } else {
        None
    }
}

/// `s` cut at its first `c`, without the `c`.
pub open spec fn split_first(s: Seq<u8>, c: u8) -> Option<(Seq<u8>, Seq<u8>)> {
    match first_index(s, c) {
        Some(i) => Some((s.subrange(0, i), s.subrange(i + 1, s.len() as int))),
        None => None,
    }
}

/// What the reference `partition:name` denotes: the type and the name.
pub open spec fn reference_of(s: Seq<u8>) -> Result<(VarType, Seq<u8>), NvramError> {
    match split_first(s, 0x3au8) {
        None => Err(NvramError::MissingPartitionName),
        Some((part, name)) => match partition_of(part) {
            None => Err(NvramError::UnknownPartition),
            Some(t) => Ok((t, name)),
        },
    }
}

/// What the assignment `partition:name=value` denotes: the type, the name and
/// the decoded value.
pub open spec fn assignment_of(s: Seq<u8>) -> Result<(VarType, Seq<u8>, Seq<u8>), NvramError> {
    match split_first(s, 0x3du8) {
        None => Err(NvramError::MissingValue),
        Some((key, value)) => match reference_of(key) {
            Err(e) => Err(e),
            Ok((t, name)) => match unescape(value) {
                None => Err(NvramError::InvalidHex),
                Some(v) => Ok((t, name, v)),
            },
        },
    }
}

proof fn lemma_first_unique(s: Seq<u8>, c: u8, i: int)
    requires
        is_first(s, c, i),
    ensures
        first_index(s, c) == Some(i),
{
    let k = choose|k: int| is_first(s, c, k);
    assert(is_first(s, c, k));
    if k < i {
        assert(s[k] != c);
    } else if i < k {
        assert(s[i] != c);
    }
}

/// The position of the first `c` in `s`.
pub fn find_byte(s: &[u8], c: u8) -> (r: Option<usize>)
    ensures
        r matches Some(i) ==> first_index(s@, c) == Some(i as int) && is_first(s@, c, i as int),
        r is None ==> first_index(s@, c) is None,
{
    let mut i: usize = 0;
    while i < s.len()
        invariant
            i <= s@.len(),
            forall|j: int| 0 <= j < i ==> s@[j] != c,
        decreases s@.len() - i,
    {
        if s[i] == c {
            proof {
                lemma_first_unique(s@, c, i as int);
            }
            return Some(i);
        }
        i = i + 1;
    }
    assert(!exists|k: int| is_first(s@, c, k));
    None
}

/// Copies `s[from..to]`.
fn copy_range(s: &[u8], from: usize, to: usize) -> (r: Vec<u8>)
    requires
        from <= to <= s@.len(),
    ensures
        r@ == s@.subrange(from as int, to as int),
{
    let mut r: Vec<u8> = Vec::new();
    let mut i: usize = from;
    while i < to
        invariant
            from <= i <= to <= s@.len(),
            r@ == s@.subrange(from as int, i as int),
        decreases to - i,
    {
        r.push(s[i]);
        i = i + 1;
        assert(r@ =~= s@.subrange(from as int, i as int));
    }
    r
}

/// The variable type named by the bytes of a partition name.
pub fn partition_by_bytes(name: &[u8]) -> (r: Result<VarType, NvramError>)
    ensures
        partition_of(name@) is None <==> r is Err,
        r matches Ok(t) ==> partition_of(name@) == Some(t),
        r matches Err(e) ==> e is UnknownPartition,
{
    if name.len() == 6 && name[0] == 0x63 && name[1] == 0x6f && name[2] == 0x6d && name[3] == 0x6d
        && name[4] == 0x6f && name[5] == 0x6e {
        assert(name@ =~= common_name());
        Ok(VarType::Common)
    } else if name.len() == 6 && name[0] == 0x73 && name[1] == 0x79 && name[2] == 0x73 && name[3]
        == 0x74 && name[4] == 0x65 && name[5] == 0x6d {
        assert(name@ =~= system_name());
        Ok(VarType::System)
    } else {
        Err(NvramError::UnknownPartition)
    }
}

/// The variable type named by a partition name: `common` or `system`.
pub fn part_by_name(name: &str) -> (r: Result<VarType, NvramError>)
    ensures
        partition_of(name.spec_bytes()) is None <==> r is Err,
        r matches Ok(t) ==> partition_of(name.spec_bytes()) == Some(t),
        r matches Err(e) ==> e is UnknownPartition,
{
    partition_by_bytes(name.as_bytes())
}

/// Decodes the bytes of a reference `partition:name`.
pub fn reference_by_bytes(s: &[u8]) -> (r: Result<(VarType, Vec<u8>), NvramError>)
    ensures
        reference_of(s@) is Ok <==> r is Ok,
        r matches Ok((t, name)) ==> reference_of(s@) == Ok::<(VarType, Seq<u8>), NvramError>((t, name@)),
        r matches Err(e) ==> reference_of(s@) == Err::<(VarType, Seq<u8>), NvramError>(e),
{
    let n = s.len();
    match find_byte(s, 0x3au8) {
        None => Err(NvramError::MissingPartitionName),
        Some(i) => {
            assert(is_first(s@, 0x3au8, i as int));
            let part = copy_range(s, 0, i);
            let name = copy_range(s, i + 1, n);
            match partition_by_bytes(part.as_slice()) {
                Ok(t) => Ok((t, name)),
                Err(e) => Err(e),
            }
        },
    }
}

/// Decodes a reference `partition:name` to a variable.
pub fn parse_reference(arg: &str) -> (r: Result<(VarType, Vec<u8>), NvramError>)
    ensures
        reference_of(arg.spec_bytes()) is Ok <==> r is Ok,
        r matches Ok((t, name)) ==> reference_of(arg.spec_bytes()) == Ok::<
            (VarType, Seq<u8>),
            NvramError,
        >((t, name@)),
        r matches Err(e) ==> reference_of(arg.spec_bytes()) == Err::<(VarType, Seq<u8>), NvramError>(e),
{
    reference_by_bytes(arg.as_bytes())
}

/// Decodes an assignment `partition:name=value`, the value written with
/// `%XX` escapes.
pub fn parse_assignment(arg: &str) -> (r: Result<(VarType, Vec<u8>, Vec<u8>), NvramError>)
    ensures
        assignment_of(arg.spec_bytes()) is Ok <==> r is Ok,
        r matches Ok((t, name, value)) ==> assignment_of(arg.spec_bytes()) == Ok::<
            (VarType, Seq<u8>, Seq<u8>),
            NvramError,
        >((t, name@, value@)),
        r matches Err(e) ==> assignment_of(arg.spec_bytes()) == Err::<
            (VarType, Seq<u8>, Seq<u8>),
            NvramError,
        >(e),
{
    let s = arg.as_bytes();
    let n = s.len();
    match find_byte(s, 0x3du8) {
        None => Err(NvramError::MissingValue),
        Some(i) => {
            assert(is_first(s@, 0x3du8, i as int));
            let key = copy_range(s, 0, i);
            let value = copy_range(s, i + 1, n);
            match reference_by_bytes(key.as_slice()) {
                Err(e) => Err(e),
                Ok((t, name)) => match unescape_bytes(value.as_slice()) {
                    Err(e) => Err(e),
                    Ok(v) => Ok((t, name, v)),
                },
            }
        },
    }
}

} // verus!
