//! The read, write and delete commands, as operations on the active bank of
//! a parsed store. Writes and deletes are staged in memory: nothing reaches
//! the device until `Nvram::apply`.

use vstd::prelude::*;
use vstd::string::StringSliceAdditionalSpecFns;
use vstd::utf8::encode_utf8;

use apple_nvram::VarType;

use crate::error::NvramError;
use crate::request::{assignment_of, parse_assignment, parse_reference, reference_of};
use crate::store::{insert_error, labelled, Nvram};

verus! {

/// A key of the store: the variable's type and name.
pub type VarKey = (VarType, Seq<u8>);

/// The bytes of each argument.
pub open spec fn arg_bytes(args: Seq<String>) -> Seq<Seq<u8>> {
    args.map_values(|a: String| encode_utf8(a@))
}

/// What reading the variable that `arg` refers to gives, on the variables `m`.
pub open spec fn lookup(m: Map<VarKey, Seq<u8>>, arg: Seq<u8>) -> Result<VarKey, NvramError> {
    match reference_of(arg) {
        Err(e) => Err(e),
        Ok(k) => if m.contains_key(k) {
            Ok(k)
        } else {
            Err(NvramError::VariableNotFound)
        },
    }
}

/// The variables after the assignments `args`, made in order, or the error
/// of the first assignment that does not decode or whose value the store
/// (escaping values or not) cannot hold.
pub open spec fn after_writes(m: Map<VarKey, Seq<u8>>, escaped: bool, args: Seq<Seq<u8>>) -> Result<
    Map<VarKey, Seq<u8>>,
    NvramError,
>
    decreases args.len(),
{
    if args.len() == 0 {
        Ok(m)
    } else {
        match assignment_of(args[0]) {
            Err(e) => Err(e),
            Ok((t, name, value)) => match insert_error(escaped, name, value) {
                Some(e) => Err(e),
                None => after_writes(
                    m.insert((t, name), value),
                    escaped,
                    args.subrange(1, args.len() as int),
                ),
            },
        }
    }
}

/// The variables after deleting those that `args` refer to, in order, or
/// the error of the first reference that does not decode.
pub open spec fn after_deletes(m: Map<VarKey, Seq<u8>>, args: Seq<Seq<u8>>) -> Result<
    Map<VarKey, Seq<u8>>,
    NvramError,
>
    decreases args.len(),
{
    if args.len() == 0 {
        Ok(m)
    } else {
        match reference_of(args[0]) {
            Err(e) => Err(e),
            Ok(k) => after_deletes(m.remove(k), args.subrange(1, args.len() as int)),
        }
    }
}

/// The value of the variable that `arg` (`partition:name`) refers to.
/// A value stored without the byte `0xFF` is returned as it is stored.
pub fn read_variable(nv: &mut Nvram, arg: &str) -> (r: Result<Vec<u8>, NvramError>)
    requires
        old(nv).wf(),
    ensures
        *final(nv) == *old(nv),
        lookup(old(nv).vars(), arg.spec_bytes()) is Ok <==> r is Ok,
        r matches Err(e) ==> lookup(old(nv).vars(), arg.spec_bytes()) == Err::<
            VarKey,
            NvramError,
        >(e),
        r matches Ok(v) ==> (!old(nv).vars()[lookup(
            old(nv).vars(),
            arg.spec_bytes(),
        )->Ok_0].contains(0xFFu8) ==> v@ == old(nv).vars()[lookup(
            old(nv).vars(),
            arg.spec_bytes(),
        )->Ok_0]),
{
    match parse_reference(arg) {
        Err(e) => Err(e),
        Ok((t, name)) => match nv.value_of(name.as_slice(), t) {
            Some(v) => Ok(v),
            None => Err(NvramError::VariableNotFound),
        },
    }
}

/// The display line (`type:name=value`) of the variable that `arg` refers to.
pub fn describe_variable(nv: &mut Nvram, arg: &str) -> (r: Result<String, NvramError>)
    requires
        old(nv).wf(),
    ensures
        *final(nv) == *old(nv),
        lookup(old(nv).vars(), arg.spec_bytes()) is Ok <==> r is Ok,
        r matches Err(e) ==> lookup(old(nv).vars(), arg.spec_bytes()) == Err::<
            VarKey,
            NvramError,
        >(e),
        r matches Ok(l) ==> labelled(l@, lookup(old(nv).vars(), arg.spec_bytes())->Ok_0.0),
{
    match parse_reference(arg) {
        Err(e) => Err(e),
        Ok((t, name)) => match nv.line_of(name.as_slice(), t) {
            Some(line) => Ok(line),
            None => Err(NvramError::VariableNotFound),
        },
    }
}

/// Prepares the store for a write and stages the assignments `args`
/// (`partition:name=value`, values with `%XX` escapes), in order. On an
/// argument that does not decode it stops with that argument's error.
pub fn stage_writes(nv: &mut Nvram, args: &Vec<String>) -> (r: Result<(), NvramError>)
    requires
        old(nv).wf(),
    ensures
        final(nv).wf(),
        old(nv).exhausted() ==> (r matches Err(e) && e is GenerationExhausted),
        !old(nv).exhausted() ==> (after_writes(old(nv).vars(), old(nv).escaped(), arg_bytes(args@)) is Ok <==> r is Ok),
        r is Ok ==> after_writes(old(nv).vars(), old(nv).escaped(), arg_bytes(args@)) == Ok::<
            Map<VarKey, Seq<u8>>,
            NvramError,
        >(final(nv).vars()),
        r matches Err(e) ==> !old(nv).exhausted() ==> after_writes(old(nv).vars(), old(nv).escaped(), arg_bytes(args@)) == Err::<
            Map<VarKey, Seq<u8>>,
            NvramError,
        >(e),
{
    let ghost all = arg_bytes(args@);
    if let Err(e) = nv.prepare_for_write() {
        return Err(e);
    }
    let n = args.len();
    let mut i: usize = 0;
    assert(all.subrange(0, n as int) =~= all);
    while i < n
        invariant
            n == args@.len(),
            i <= n,
            all == arg_bytes(args@),
            nv.wf(),
            !old(nv).exhausted(),
            nv.escaped() == old(nv).escaped(),
            after_writes(old(nv).vars(), old(nv).escaped(), all) == after_writes(
                nv.vars(),
                nv.escaped(),
                all.subrange(i as int, n as int),
            ),
        decreases n - i,
    {
        let ghost rest = all.subrange(i as int, n as int);
        assert(rest[0] == all[i as int]);
        assert(rest.subrange(1, rest.len() as int) =~= all.subrange(i + 1, n as int));
        match parse_assignment(args[i].as_str()) {
            Err(e) => {
                return Err(e);
            },
            Ok((t, name, value)) => {
                if let Err(e) = nv.insert_variable(name.as_slice(), value, t) {
                    return Err(e);
                }
            },
        }
        i = i + 1;
    }
    assert(all.subrange(n as int, n as int) =~= Seq::<Seq<u8>>::empty());
    Ok(())
}

/// Prepares the store for a write and stages the deletion of the variables
/// that `args` (`partition:name`) refer to, in order. Deleting an absent
/// variable changes nothing. On an argument that does not decode it stops
/// with that argument's error.
pub fn stage_deletes(nv: &mut Nvram, args: &Vec<String>) -> (r: Result<(), NvramError>)
    requires
        old(nv).wf(),
    ensures
        final(nv).wf(),
        old(nv).exhausted() ==> (r matches Err(e) && e is GenerationExhausted),
        !old(nv).exhausted() ==> (after_deletes(old(nv).vars(), arg_bytes(args@)) is Ok <==> r is Ok),
        r is Ok ==> after_deletes(old(nv).vars(), arg_bytes(args@)) == Ok::<
            Map<VarKey, Seq<u8>>,
            NvramError,
        >(final(nv).vars()),
        r matches Err(e) ==> !old(nv).exhausted() ==> after_deletes(old(nv).vars(), arg_bytes(args@)) == Err::<
            Map<VarKey, Seq<u8>>,
            NvramError,
        >(e),
{
    let ghost all = arg_bytes(args@);
    if let Err(e) = nv.prepare_for_write() {
        return Err(e);
    }
    let n = args.len();
    let mut i: usize = 0;
    assert(all.subrange(0, n as int) =~= all);
    while i < n
        invariant
            n == args@.len(),
            i <= n,
            all == arg_bytes(args@),
            nv.wf(),
            !old(nv).exhausted(),
            after_deletes(old(nv).vars(), all) == after_deletes(
                nv.vars(),
                all.subrange(i as int, n as int),
            ),
        decreases n - i,
    {
        let ghost rest = all.subrange(i as int, n as int);
        assert(rest[0] == all[i as int]);
        assert(rest.subrange(1, rest.len() as int) =~= all.subrange(i + 1, n as int));
        match parse_reference(args[i].as_str()) {
            Err(e) => {
                return Err(e);
            },
            Ok((t, name)) => {
                nv.remove_variable(name.as_slice(), t);
            },
        }
        i = i + 1;
    }
    assert(all.subrange(n as int, n as int) =~= Seq::<Seq<u8>>::empty());
    Ok(())
}

} // verus!
