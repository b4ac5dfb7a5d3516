//! The parsed NVRAM store of a device image, as the `apple_nvram` crate
//! holds it, with the variables of its active bank as the model.

use vstd::prelude::*;

use apple_nvram::{NvramWriter, VarType};

use crate::error::NvramError;
use crate::image::{escapes_check, escapes_ok, image_check, image_ok, v1v2_candidate};

verus! {

/// The highest generation that a bank of a parsed image may start from;
/// each staged write may raise the active generation by one.
pub const GENERATION_LIMIT: u32 = 0xFFFF_0000;

/// The store of `apple_nvram`, borrowing the image's bytes.
#[verifier::external_body]
pub struct Store<'a> {
    inner: Box<dyn apple_nvram::Nvram<'a> + 'a>,
}

/// The variables of the active bank of `s`, keyed by type and name, each
/// with its value as the bank stores it.
pub uninterp spec fn active_vars(s: Store) -> Map<(VarType, Seq<u8>), Seq<u8>>;

/// The generation counter of the active bank of `s`.
pub uninterp spec fn active_generation(s: Store) -> int;

/// Whether `s` keeps its values escaped (the v1/v2 layout), unescaping them
/// when they are read.
pub uninterp spec fn keeps_escaped(s: Store) -> bool;

/// The variables of the active bank of the store parsed from `data`, or
/// `None` when the parser rejects it.
pub uninterp spec fn image_vars(data: Seq<u8>) -> Option<Map<(VarType, Seq<u8>), Seq<u8>>>;

/// The text that a display line of a variable of type `t` starts with.
pub open spec fn type_label(t: VarType) -> Seq<char> {
    match t {
        VarType::Common => seq!['c', 'o', 'm', 'm', 'o', 'n', ':'],
        VarType::System => seq!['s', 'y', 's', 't', 'e', 'm', ':'],
    }
}

/// `line` starts with the label of type `t`.
pub open spec fn labelled(line: Seq<char>, t: VarType) -> bool {
    line.len() >= 7 && line.subrange(0, 7) == type_label(t)
}

/// A store that unescapes its values holds only values it can unescape.
pub open spec fn escapes_sound(s: Store) -> bool {
    keeps_escaped(s) ==> forall|k: (VarType, Seq<u8>)|
        #[trigger] active_vars(s).contains_key(k) ==> escapes_ok(active_vars(s)[k])
}

impl<'a> Store<'a> {
    /// Relies on `apple_nvram::nvram_parse`: it chooses the v3 layout or
    /// the v1/v2 one by which of the two parses, and fails with
    /// `ParseError` when neither or both do; its active bank has the
    /// highest generation of the valid ones.
    #[verifier::external_body]
    fn parse_image(data: &'a [u8]) -> (r: Result<Store<'a>, apple_nvram::Error>)
        requires
            image_ok(data@),
        ensures
            r is Ok <==> image_vars(data@) is Some,
            r matches Ok(s) ==> active_vars(s) == image_vars(data@)->Some_0 && 0
                <= active_generation(s) < GENERATION_LIMIT && keeps_escaped(s) == v1v2_candidate(
                data@,
            ) && escapes_sound(s),
            r matches Err(e) ==> e is ParseError,
    {
        apple_nvram::nvram_parse(data).map(|inner| Store { inner })
    }

    /// Relies on `apple_nvram::Nvram::prepare_for_write`: the bank it makes
    /// active holds the same variables, one generation on at most.
    #[verifier::external_body]
    fn prepare(&mut self)
        requires
            active_generation(*old(self)) < 0xFFFF_FFFF,
        ensures
            active_vars(*final(self)) == active_vars(*old(self)),
            active_generation(*old(self)) <= active_generation(*final(self))
                <= active_generation(*old(self)) + 1,
            keeps_escaped(*final(self)) == keeps_escaped(*old(self)),
    {
        self.inner.prepare_for_write()
    }

    /// Relies on `apple_nvram::Partition::get_variable` and
    /// `apple_nvram::Variable::value` on the active bank: a variable is
    /// found exactly when the bank holds it; a store that does not escape
    /// values gives them as stored, one that does unescapes them, which
    /// leaves a value without the byte `0xFF` as it is.
    #[verifier::external_body]
    fn value_of(&mut self, key: &[u8], typ: VarType) -> (r: Option<Vec<u8>>)
        requires
            escapes_sound(*old(self)),
        ensures
            *final(self) == *old(self),
            r is Some <==> active_vars(*old(self)).contains_key((typ, key@)),
            r matches Some(v) ==> ((!keeps_escaped(*old(self)) || !active_vars(*old(self))[(
                typ,
                key@,
            )].contains(0xFFu8)) ==> v@ == active_vars(*old(self))[(typ, key@)]),
    {
        self.inner.active_part_mut().get_variable(key, typ).map(|v| v.value().into_owned())
    }

    /// Relies on the `Display` of `apple_nvram::Variable` (`type:name=value`,
    /// the type written by the `Display` of `VarType`): a line is given
    /// exactly when the active bank holds the variable.
    #[verifier::external_body]
    fn line_of(&mut self, key: &[u8], typ: VarType) -> (r: Option<String>)
        requires
            escapes_sound(*old(self)),
        ensures
            *final(self) == *old(self),
            r is Some <==> active_vars(*old(self)).contains_key((typ, key@)),
            r matches Some(l) ==> labelled(l@, typ),
    {
        self.inner.active_part_mut().get_variable(key, typ).map(|v| v.to_string())
    }

    /// Relies on the `Display` of each `apple_nvram::Variable` that
    /// `apple_nvram::Partition::variables` lists for the active bank: each
    /// line starts with the variable's type.
    #[verifier::external_body]
    fn lines(&mut self) -> (r: Vec<String>)
        requires
            escapes_sound(*old(self)),
        ensures
            *final(self) == *old(self),
            forall|i: int|
                0 <= i < r@.len() ==> labelled(#[trigger] r@[i]@, VarType::Common) || labelled(
                    r@[i]@,
                    VarType::System,
                ),
    {
        self.inner.active_part_mut().variables().map(|v| v.to_string()).collect()
    }

    /// Relies on `apple_nvram::Partition::insert_variable`: the active bank
    /// then stores `value` under the key, in place of any earlier value. The
    /// v3 record sizes it computes are 32-bit.
    #[verifier::external_body]
    fn insert(&mut self, key: &[u8], value: Vec<u8>, typ: VarType)
        requires
            key@.len() + value@.len() < 0xFFFF_FFFF,
        ensures
            active_vars(*final(self)) == active_vars(*old(self)).insert((typ, key@), value@),
            active_generation(*final(self)) == active_generation(*old(self)),
            keeps_escaped(*final(self)) == keeps_escaped(*old(self)),
    {
        self.inner.active_part_mut().insert_variable(key, std::borrow::Cow::Owned(value), typ)
    }

    /// Relies on `apple_nvram::Partition::remove_variable`: the key leaves
    /// the active bank, and nothing else changes.
    #[verifier::external_body]
    fn remove(&mut self, key: &[u8], typ: VarType)
        ensures
            active_vars(*final(self)) == active_vars(*old(self)).remove((typ, key@)),
            active_generation(*final(self)) == active_generation(*old(self)),
            keeps_escaped(*final(self)) == keeps_escaped(*old(self)),
    {
        self.inner.active_part_mut().remove_variable(key, typ)
    }

    /// Relies on `apple_nvram::Nvram::apply`: it writes the active bank
    /// through `w`, moving to the next bank one generation on when the
    /// current one is full; the variables of the active bank are kept,
    /// whatever the outcome. It never reports `ParseError`. What the
    /// writer's own methods do (erasing, writing) is the caller's `W`.
    #[verifier::external_body]
    fn apply_raw<W: NvramWriter>(&mut self, w: &mut W) -> (r: Result<(), apple_nvram::Error>)
        requires
            active_generation(*old(self)) < 0xFFFF_FFFF,
        ensures
            active_vars(*final(self)) == active_vars(*old(self)),
            active_generation(*old(self)) <= active_generation(*final(self))
                <= active_generation(*old(self)) + 1,
            keeps_escaped(*final(self)) == keeps_escaped(*old(self)),
            r matches Err(e) ==> !(e is ParseError),
    {
        self.inner.apply(w)
    }
}

/// Why a value cannot be staged under `key`, if it cannot: record sizes must
/// fit in 32 bits, and a store that escapes values cannot hold a `0xFF`
/// followed by a zero count.
pub open spec fn insert_error(escaped: bool, key: Seq<u8>, value: Seq<u8>) -> Option<NvramError> {
    if key.len() + value.len() >= 0xFFFF_FFFF {
        Some(NvramError::SectionTooBig)
    } else if escaped && !escapes_ok(value) {
        Some(NvramError::InvalidValue)
    } else {
        None
    }
}

/// The NVRAM store parsed from a device image.
pub struct Nvram<'a> {
    store: Store<'a>,
    escaped: bool,
    generation_bound: u32,
}

impl<'a> Nvram<'a> {
    /// The variables of the active bank.
    pub closed spec fn vars(&self) -> Map<(VarType, Seq<u8>), Seq<u8>> {
        active_vars(self.store)
    }

    /// Whether the store keeps its values escaped (the v1/v2 layout).
    pub closed spec fn escaped(&self) -> bool {
        self.escaped
    }

    /// Whether the generation counter has no room left for another write.
    pub closed spec fn exhausted(&self) -> bool {
        self.generation_bound == u32::MAX
    }

    pub closed spec fn wf(&self) -> bool {
        &&& 0 <= active_generation(self.store) <= self.generation_bound
        &&& keeps_escaped(self.store) == self.escaped
        &&& escapes_sound(self.store)
    }

    /// Parses a device image. It fails with `Parse` when the image is not
    /// one the parser reads without fault, or when no bank of it validates.
    pub fn parse(data: &'a [u8]) -> (r: Result<Nvram<'a>, NvramError>)
        ensures
            r is Ok <==> image_ok(data@) && image_vars(data@) is Some,
            r matches Ok(nv) ==> nv.wf() && nv.vars() == image_vars(data@)->Some_0
                && nv.escaped() == v1v2_candidate(data@) && !nv.exhausted(),
            r matches Err(e) ==> e is Parse,
    {
        if !image_check(data) {
            return Err(NvramError::Parse);
        }
        match Store::parse_image(data) {
            Ok(store) => {
                let escaped = v1v2_image(data);
                Ok(Nvram { store, escaped, generation_bound: GENERATION_LIMIT })
            },
            Err(e) => Err(NvramError::from(e)),
        }
    }

    /// Makes the store ready for staged changes; `GenerationExhausted` when
    /// the generation counter has no room left.
    pub fn prepare_for_write(&mut self) -> (r: Result<(), NvramError>)
        requires
            old(self).wf(),
        ensures
            final(self).wf(),
            final(self).vars() == old(self).vars(),
            final(self).escaped() == old(self).escaped(),
            r is Err <==> old(self).exhausted(),
            r matches Err(e) ==> e is GenerationExhausted,
    {
        if self.generation_bound == u32::MAX {
            return Err(NvramError::GenerationExhausted);
        }
        self.store.prepare();
        self.generation_bound = self.generation_bound + 1;
        Ok(())
    }

    /// The value of a variable of the active bank.
    pub fn value_of(&mut self, key: &[u8], typ: VarType) -> (r: Option<Vec<u8>>)
        requires
            old(self).wf(),
        ensures
            *final(self) == *old(self),
            r is Some <==> old(self).vars().contains_key((typ, key@)),
            r matches Some(v) ==> ((!old(self).escaped() || !old(self).vars()[(
                typ,
                key@,
            )].contains(0xFFu8)) ==> v@ == old(self).vars()[(typ, key@)]),
    {
        self.store.value_of(key, typ)
    }

    /// The display line (`type:name=value`) of a variable of the active bank.
    pub fn line_of(&mut self, key: &[u8], typ: VarType) -> (r: Option<String>)
        requires
            old(self).wf(),
        ensures
            *final(self) == *old(self),
            r is Some <==> old(self).vars().contains_key((typ, key@)),
            r matches Some(l) ==> labelled(l@, typ),
    {
        self.store.line_of(key, typ)
    }

    /// The display lines of all variables of the active bank, each
    /// starting with the variable's type.
    pub fn lines(&mut self) -> (r: Vec<String>)
        requires
            old(self).wf(),
        ensures
            *final(self) == *old(self),
            forall|i: int|
                0 <= i < r@.len() ==> labelled(#[trigger] r@[i]@, VarType::Common) || labelled(
                    r@[i]@,
                    VarType::System,
                ),
    {
        self.store.lines()
    }

    /// Stages `value` under `(typ, key)` in the active bank, or says why the
    /// store cannot hold it.
    pub fn insert_variable(&mut self, key: &[u8], value: Vec<u8>, typ: VarType) -> (r: Result<
        (),
        NvramError,
    >)
        requires
            old(self).wf(),
        ensures
            final(self).wf(),
            final(self).escaped() == old(self).escaped(),
            final(self).exhausted() == old(self).exhausted(),
            r is Err <==> insert_error(old(self).escaped(), key@, value@) is Some,
            r matches Err(e) ==> insert_error(old(self).escaped(), key@, value@) == Some(e)
                && final(self).vars() == old(self).vars(),
            r is Ok ==> final(self).vars() == old(self).vars().insert((typ, key@), value@),
    {
        if key.len() >= 0xFFFF_FFFF || value.len() >= 0xFFFF_FFFF - key.len() {
            return Err(NvramError::SectionTooBig);
        }
        if self.escaped && !escapes_check(value.as_slice(), 0, value.len()) {
            assert(value@.subrange(0, value@.len() as int) =~= value@);
            return Err(NvramError::InvalidValue);
        }
        assert(value@.subrange(0, value@.len() as int) =~= value@);
        self.store.insert(key, value, typ);
        Ok(())
    }

    /// Removes `(typ, key)` from the active bank, if it is there.
    pub fn remove_variable(&mut self, key: &[u8], typ: VarType)
        requires
            old(self).wf(),
        ensures
            final(self).wf(),
            final(self).escaped() == old(self).escaped(),
            final(self).exhausted() == old(self).exhausted(),
            final(self).vars() == old(self).vars().remove((typ, key@)),
    {
        self.store.remove(key, typ);
    }

    /// Writes the active bank to the device through `w`. The variables of
    /// the active bank are the same afterwards, whether or not the write
    /// succeeded; a failure is `GenerationExhausted` (before any write),
    /// `SectionTooBig` or `ApplyError`.
    pub fn apply<W: NvramWriter>(&mut self, w: &mut W) -> (r: Result<(), NvramError>)
        requires
            old(self).wf(),
        ensures
            final(self).wf(),
            final(self).vars() == old(self).vars(),
            final(self).escaped() == old(self).escaped(),
            old(self).exhausted() ==> (r matches Err(e) && e is GenerationExhausted),
            r matches Err(e) ==> e is GenerationExhausted || e is SectionTooBig || e is ApplyError,
    {
        if self.generation_bound == u32::MAX {
            return Err(NvramError::GenerationExhausted);
        }
        let r = self.store.apply_raw(w);
        self.generation_bound = self.generation_bound + 1;
        match r {
            Ok(()) => Ok(()),
            Err(e) => Err(NvramError::from(e)),
        }
    }
}

/// Whether the image holds a v1/v2 partition candidate.
fn v1v2_image(d: &[u8]) -> (r: bool)
    requires
        d@.len() >= 0x20000,
    ensures
        r == v1v2_candidate(d@),
{
    crate::image::named_check(d, 0) || crate::image::named_check(d, 0x10000)
}

} // verus!
