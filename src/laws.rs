//! Properties of the staged commands, stated over the model of the active bank.

use vstd::prelude::*;

use crate::commands::{after_deletes, after_writes, lookup, VarKey};
use crate::error::NvramError;
use crate::request::{assignment_of, reference_of};
use crate::store::insert_error;

verus! {

/// Deleting variables that the bank does not hold leaves its variables
/// unchanged.
pub proof fn lemma_delete_absent_unchanged(m: Map<VarKey, Seq<u8>>, args: Seq<Seq<u8>>)
    requires
        forall|i: int|
            0 <= i < args.len() ==> (#[trigger] reference_of(args[i])) is Ok && !m.contains_key(
                reference_of(args[i])->Ok_0,
            ),
    ensures
        after_deletes(m, args) == Ok::<Map<VarKey, Seq<u8>>, NvramError>(m),
    decreases args.len(),
{
    if args.len() > 0 {
        let k = reference_of(args[0])->Ok_0;
        assert(reference_of(args[0]) is Ok);
        assert(m.remove(k) =~= m);
        let rest = args.subrange(1, args.len() as int);
        assert forall|i: int| 0 <= i < rest.len() implies (#[trigger] reference_of(rest[i])) is Ok
            && !m.contains_key(reference_of(rest[i])->Ok_0) by {
            assert(rest[i] == args[i + 1]);
            assert(reference_of(args[i + 1]) is Ok);
        }
        lemma_delete_absent_unchanged(m, rest);
    }
}

/// Deleting the same variables a second time changes nothing.
pub proof fn lemma_delete_twice(m: Map<VarKey, Seq<u8>>, args: Seq<Seq<u8>>)
    requires
        after_deletes(m, args) is Ok,
    ensures
        after_deletes(after_deletes(m, args)->Ok_0, args) == after_deletes(m, args),
{
    let d = after_deletes(m, args)->Ok_0;
    lemma_deleted_absent(m, args);
    lemma_delete_absent_unchanged(d, args);
}

/// After the deletions `args`, the bank holds none of the variables they
/// refer to.
pub proof fn lemma_deleted_absent(m: Map<VarKey, Seq<u8>>, args: Seq<Seq<u8>>)
    requires
        after_deletes(m, args) is Ok,
    ensures
        forall|i: int|
            0 <= i < args.len() ==> (#[trigger] reference_of(args[i])) is Ok && !after_deletes(
                m,
                args,
            )->Ok_0.contains_key(reference_of(args[i])->Ok_0),
    decreases args.len(),
{
    if args.len() > 0 {
        let k = reference_of(args[0])->Ok_0;
        let rest = args.subrange(1, args.len() as int);
        lemma_deleted_absent(m.remove(k), rest);
        lemma_deletes_shrink(m.remove(k), rest);
        assert forall|i: int| 0 <= i < args.len() implies (#[trigger] reference_of(args[i])) is Ok
            && !after_deletes(m, args)->Ok_0.contains_key(reference_of(args[i])->Ok_0) by {
            if i > 0 {
                assert(args[i] == rest[i - 1]);
                assert(reference_of(rest[i - 1]) is Ok);
            }
        }
    }
}

/// Deletions never add a variable.
pub proof fn lemma_deletes_shrink(m: Map<VarKey, Seq<u8>>, args: Seq<Seq<u8>>)
    requires
        after_deletes(m, args) is Ok,
    ensures
        after_deletes(m, args)->Ok_0.dom().subset_of(m.dom()),
    decreases args.len(),
{
    if args.len() > 0 {
        let k = reference_of(args[0])->Ok_0;
        lemma_deletes_shrink(m.remove(k), args.subrange(1, args.len() as int));
    }
}

/// Writing `name=value`, where the store can hold the value, and then
/// reading `name` gives `value`.
pub proof fn lemma_read_after_write(
    m: Map<VarKey, Seq<u8>>,
    escaped: bool,
    write: Seq<u8>,
    read: Seq<u8>,
)
    requires
        assignment_of(write) is Ok,
        reference_of(read) is Ok,
        reference_of(read)->Ok_0 == (assignment_of(write)->Ok_0.0, assignment_of(write)->Ok_0.1),
        insert_error(escaped, assignment_of(write)->Ok_0.1, assignment_of(write)->Ok_0.2) is None,
    ensures
        after_writes(m, escaped, seq![write]) is Ok,
        lookup(after_writes(m, escaped, seq![write])->Ok_0, read) == Ok::<VarKey, NvramError>(
            reference_of(read)->Ok_0,
        ),
        after_writes(m, escaped, seq![write])->Ok_0[reference_of(read)->Ok_0] == assignment_of(
            write,
        )->Ok_0.2,
{
    let (t, name, value) = assignment_of(write)->Ok_0;
    let s = seq![write];
    assert(s[0] == write);
    assert(s.subrange(1, 1) =~= Seq::<Seq<u8>>::empty());
    assert(after_writes(m, escaped, s) == after_writes(
        m.insert((t, name), value),
        escaped,
        Seq::empty(),
    ));
}

/// Deleting `name` and then reading `name` gives `VariableNotFound`.
pub proof fn lemma_read_after_delete(m: Map<VarKey, Seq<u8>>, read: Seq<u8>)
    requires
        reference_of(read) is Ok,
    ensures
        after_deletes(m, seq![read]) is Ok,
        lookup(after_deletes(m, seq![read])->Ok_0, read) == Err::<VarKey, NvramError>(
            NvramError::VariableNotFound,
        ),
{
    let k = reference_of(read)->Ok_0;
    let s = seq![read];
    assert(s[0] == read);
    assert(s.subrange(1, 1) =~= Seq::<Seq<u8>>::empty());
    assert(after_deletes(m, s) == after_deletes(m.remove(k), Seq::empty()));
}

} // verus!
