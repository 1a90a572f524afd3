//! Resolution of the variable references that the parser recorded in
//! instrument and kit definitions: each reference is looked up in the
//! scope chain and its value written over the field it stands for.
//!
//! Fields are resolved in a fixed order; the first reference that fails
//! stops the resolution with an error, and the fields resolved before it
//! keep their new values.

use vstd::prelude::*;

use crate::ast::{CcMapping, InstrumentDef, KitDef, KitInstrument};
use crate::domain::MidiChannel;
use crate::error::EngineError;
use crate::scope::{lookup_scopes, ScopeChain};
use crate::text::{owned, parse_u8, parse_u8_spec, u8_decimal, u8_to_string};

verus! {

/// Why a reference could not be resolved.
pub enum Failure {
    /// The variable is defined in no scope.
    Undefined { name: Seq<char>, field: Seq<char> },
    /// The variable's value does not convert to what the field needs.
    Invalid { name: Seq<char>, value: Seq<char>, expected: Seq<char> },
}

/// The engine error `e` reports the failure `f`.
pub open spec fn describes(e: EngineError, f: Failure) -> bool {
    match f {
        Failure::Undefined { name, field } => e matches EngineError::UndefinedVariable { name: n, field: fl }
            && n@ == name && fl@ == field,
        Failure::Invalid { name, value, expected } => e matches EngineError::InvalidVariableValue {
            name: n,
            value: v,
            expected_type: x,
        } && n@ == name && v@ == value && x@ == expected,
    }
}

/// The value of variable `var` as a byte, for the field `field`.
pub open spec fn u8_resolution(scopes: Seq<Map<Seq<char>, String>>, var: Seq<char>, field: Seq<char>) -> Result<u8, Failure> {
    match lookup_scopes(scopes, var) {
        None => Err(Failure::Undefined { name: var, field }),
        Some(v) => match parse_u8_spec(v) {
            Some(x) => Ok(x),
            None => Err(Failure::Invalid { name: var, value: v, expected: "u8"@ }),
        },
    }
}

/// The value of variable `var` as a one-based MIDI channel, given as its
/// zero-based number.
pub open spec fn channel_resolution(scopes: Seq<Map<Seq<char>, String>>, var: Seq<char>, field: Seq<char>) -> Result<u8, Failure> {
    match u8_resolution(scopes, var, field) {
        Err(f) => Err(f),
        Ok(raw) => if 1 <= raw <= 16 {
            Ok((raw - 1) as u8)
        } else {
            Err(Failure::Invalid { name: var, value: u8_decimal(raw), expected: "MIDI channel (1-16)"@ })
        },
    }
}

/// The failure of an optional byte reference, if it fails.
pub open spec fn u8_ref_failure(scopes: Seq<Map<Seq<char>, String>>, r: Option<String>, field: Seq<char>) -> Option<Failure> {
    match r {
        None => None,
        Some(v) => match u8_resolution(scopes, v@, field) {
            Ok(_) => None,
            Err(f) => Some(f),
        },
    }
}

/// The failure of an optional channel reference, if it fails.
pub open spec fn channel_ref_failure(scopes: Seq<Map<Seq<char>, String>>, r: Option<String>) -> Option<Failure> {
    match r {
        None => None,
        Some(v) => match channel_resolution(scopes, v@, "channel"@) {
            Ok(_) => None,
            Err(f) => Some(f),
        },
    }
}

/// The failure of an optional device reference, if it fails.
pub open spec fn device_ref_failure(scopes: Seq<Map<Seq<char>, String>>, r: Option<String>) -> Option<Failure> {
    match r {
        None => None,
        Some(v) => match lookup_scopes(scopes, v@) {
            None => Some(Failure::Undefined { name: v@, field: "device"@ }),
            Some(_) => None,
        },
    }
}

/// A byte field after its step: the resolved value when the step was
/// reached and resolves, else unchanged.
pub open spec fn u8_after(scopes: Seq<Map<Seq<char>, String>>, r: Option<String>, field: Seq<char>, cur: u8, reached: bool) -> u8 {
    match r {
        Some(v) => if reached && u8_resolution(scopes, v@, field) is Ok {
            u8_resolution(scopes, v@, field)->Ok_0
        } else {
            cur
        },
        None => cur,
    }
}

/// An optional byte field after its step.
pub open spec fn opt_u8_after(scopes: Seq<Map<Seq<char>, String>>, r: Option<String>, field: Seq<char>, cur: Option<u8>, reached: bool) -> Option<u8> {
    match r {
        Some(v) => if reached && u8_resolution(scopes, v@, field) is Ok {
            Some(u8_resolution(scopes, v@, field)->Ok_0)
        } else {
            cur
        },
        None => cur,
    }
}

/// A channel (as its zero-based number) after its step.
pub open spec fn channel_after(scopes: Seq<Map<Seq<char>, String>>, r: Option<String>, cur: nat, reached: bool) -> nat {
    match r {
        Some(v) => if reached && channel_resolution(scopes, v@, "channel"@) is Ok {
            channel_resolution(scopes, v@, "channel"@)->Ok_0 as nat
        } else {
            cur
        },
        None => cur,
    }
}

/// The position of the first `Some`, or the length when there is none.
pub open spec fn first_some<T>(s: Seq<Option<T>>) -> int
    decreases s.len(),
{
    if s.len() == 0 {
        0
    } else if s[0] is Some {
        0
    } else {
        1 + first_some(s.drop_first())
    }
}

/// `first_some` is the position of the first `Some`.
pub proof fn lemma_first_some<T>(s: Seq<Option<T>>)
    ensures
        0 <= first_some(s) <= s.len(),
        forall|j: int| 0 <= j < first_some(s) ==> #[trigger] s[j] is None,
        first_some(s) < s.len() ==> s[first_some(s)] is Some,
    decreases s.len(),
{
    if s.len() > 0 && s[0] is None {
        lemma_first_some(s.drop_first());
        assert forall|j: int| 0 <= j < first_some(s) implies #[trigger] s[j] is None by {
            if j > 0 {
                assert(s[j] == s.drop_first()[j - 1]);
            }
        }
    }
}

/// `first_some` is determined by the steps up to a `Some`, or by all of
/// them when none is `Some`.
pub proof fn lemma_first_some_at<T>(s: Seq<Option<T>>, k: int)
    requires
        0 <= k <= s.len(),
        forall|j: int| 0 <= j < k ==> #[trigger] s[j] is None,
        k == s.len() || s[k] is Some,
    ensures
        first_some(s) == k,
    decreases k,
{
    if k > 0 {
        assert forall|j: int| 0 <= j < k - 1 implies #[trigger] s.drop_first()[j] is None by {
            assert(s[j + 1] is None);
        }
        lemma_first_some_at(s.drop_first(), k - 1);
    }
}

/// The failures of the steps of an instrument's resolution, in order:
/// device, channel, the two gates, the three velocities, then each CC
/// mapping.
pub open spec fn instrument_failures(inst: InstrumentDef, scopes: Seq<Map<Seq<char>, String>>) -> Seq<Option<Failure>> {
    seq![
        device_ref_failure(scopes, inst.unresolved.device),
        channel_ref_failure(scopes, inst.unresolved.channel),
        u8_ref_failure(scopes, inst.unresolved.gate_normal, "gate_normal"@),
        u8_ref_failure(scopes, inst.unresolved.gate_staccato, "gate_staccato"@),
        u8_ref_failure(scopes, inst.unresolved.velocity_normal, "velocity_normal"@),
        u8_ref_failure(scopes, inst.unresolved.velocity_accent, "velocity_accent"@),
        u8_ref_failure(scopes, inst.unresolved.velocity_ghost, "velocity_ghost"@),
    ] + Seq::new(inst.cc_mappings@.len(), |k: int| u8_ref_failure(scopes, inst.cc_mappings@[k].cc_number_ref, "cc_number"@))
}

/// The failures of the steps of a kit instrument's resolution, in order:
/// channel, the two gates, the three velocities.
pub open spec fn kit_instrument_failures(ki: KitInstrument, scopes: Seq<Map<Seq<char>, String>>) -> Seq<Option<Failure>> {
    seq![
        channel_ref_failure(scopes, ki.unresolved.channel),
        u8_ref_failure(scopes, ki.unresolved.gate_normal, "gate_normal"@),
        u8_ref_failure(scopes, ki.unresolved.gate_staccato, "gate_staccato"@),
        u8_ref_failure(scopes, ki.unresolved.velocity_normal, "velocity_normal"@),
        u8_ref_failure(scopes, ki.unresolved.velocity_accent, "velocity_accent"@),
        u8_ref_failure(scopes, ki.unresolved.velocity_ghost, "velocity_ghost"@),
    ]
}

/// A kit instrument after its steps before `reached` ran (all of them
/// when `reached` is 6 or more).
pub open spec fn kit_instrument_after(old: KitInstrument, new: KitInstrument, scopes: Seq<Map<Seq<char>, String>>, reached: int) -> bool {
    &&& new.name == old.name
    &&& new.note == old.note
    &&& new.unresolved == old.unresolved
    &&& new.channel.zero_based() == channel_after(scopes, old.unresolved.channel, old.channel.zero_based(), 0 < reached)
    &&& new.gate_normal == opt_u8_after(scopes, old.unresolved.gate_normal, "gate_normal"@, old.gate_normal, 1 < reached)
    &&& new.gate_staccato == opt_u8_after(scopes, old.unresolved.gate_staccato, "gate_staccato"@, old.gate_staccato, 2 < reached)
    &&& new.velocity_normal == opt_u8_after(scopes, old.unresolved.velocity_normal, "velocity_normal"@, old.velocity_normal, 3 < reached)
    &&& new.velocity_accent == opt_u8_after(scopes, old.unresolved.velocity_accent, "velocity_accent"@, old.velocity_accent, 4 < reached)
    &&& new.velocity_ghost == opt_u8_after(scopes, old.unresolved.velocity_ghost, "velocity_ghost"@, old.velocity_ghost, 5 < reached)
}

/// A copy of an optional name.
fn copy_ref(r: &Option<String>) -> (c: Option<String>)
    ensures
        c == *r,
{
    match r {
        Some(s) => Some(s.clone()),
        None => None,
    }
}

/// Resolves variable `var_name` to a byte for the field `field`.
fn resolve_u8(scope: &ScopeChain, var_name: &str, field: &str) -> (r: Result<u8, EngineError>)
    requires
        scope.wf(),
    ensures
        match u8_resolution(scope@, var_name@, field@) {
            Ok(x) => r matches Ok(y) && y == x,
            Err(f) => r matches Err(e) && describes(e, f),
        },
{
    match scope.resolve(var_name) {
        None => Err(EngineError::UndefinedVariable { name: owned(var_name), field: owned(field) }),
        Some(value) => match parse_u8(value) {
            Some(x) => Ok(x),
            None => Err(EngineError::InvalidVariableValue {
                name: owned(var_name),
                value: owned(value),
                expected_type: owned("u8"),
            }),
        },
    }
}

/// Resolves variable `var_name` to a MIDI channel, reading its value as
/// a one-based channel number.
fn resolve_channel(scope: &ScopeChain, var_name: &str, field: &str) -> (r: Result<MidiChannel, EngineError>)
    requires
        scope.wf(),
    ensures
        match channel_resolution(scope@, var_name@, field@) {
            Ok(x) => r matches Ok(c) && c.zero_based() == x,
            Err(f) => r matches Err(e) && describes(e, f),
        },
{
    let raw = match resolve_u8(scope, var_name, field) {
        Ok(x) => x,
        Err(e) => return Err(e),
    };
    match MidiChannel::from_one_based(raw) {
        Ok(c) => Ok(c),
        Err(_) => Err(EngineError::InvalidVariableValue {
            name: owned(var_name),
            value: u8_to_string(raw),
            expected_type: owned("MIDI channel (1-16)"),
        }),
    }
}

/// Resolves an optional byte reference into `slot`.
fn resolve_opt_u8_into(slot: &mut Option<u8>, scope: &ScopeChain, r: &Option<String>, field: &str) -> (res: Result<(), EngineError>)
    requires
        scope.wf(),
    ensures
        match u8_ref_failure(scope@, *r, field@) {
            Some(f) => res matches Err(e) && describes(e, f) && *final(slot) == *old(slot),
            None => res is Ok && *final(slot) == opt_u8_after(scope@, *r, field@, *old(slot), true),
        },
{
    match r {
        Some(v) => match resolve_u8(scope, v.as_str(), field) {
            Ok(x) => {
                *slot = Some(x);
                Ok(())
            },
            Err(e) => Err(e),
        },
        None => Ok(()),
    }
}

/// Resolves an optional channel reference into `slot`.
fn resolve_channel_into(slot: &mut MidiChannel, scope: &ScopeChain, r: &Option<String>) -> (res: Result<(), EngineError>)
    requires
        scope.wf(),
    ensures
        match channel_ref_failure(scope@, *r) {
            Some(f) => res matches Err(e) && describes(e, f) && *final(slot) == *old(slot),
            None => res is Ok && final(slot).zero_based() == channel_after(scope@, *r, old(slot).zero_based(), true),
        },
{
    match r {
        Some(v) => match resolve_channel(scope, v.as_str(), "channel") {
            Ok(c) => {
                *slot = c;
                Ok(())
            },
            Err(e) => Err(e),
        },
        None => Ok(()),
    }
}

/// An instrument after its steps before `reached` ran.
pub open spec fn instrument_after(old: InstrumentDef, new: InstrumentDef, scopes: Seq<Map<Seq<char>, String>>, reached: int) -> bool {
    &&& new.name == old.name
    &&& new.note == old.note
    &&& new.local_vars == old.local_vars
    &&& new.unresolved == old.unresolved
    &&& new.device@ == match old.unresolved.device {
        Some(v) => if 0 < reached && lookup_scopes(scopes, v@) is Some {
            lookup_scopes(scopes, v@)->Some_0
        } else {
            old.device@
        },
        None => old.device@,
    }
    &&& new.channel.zero_based() == channel_after(scopes, old.unresolved.channel, old.channel.zero_based(), 1 < reached)
    &&& new.gate_normal == opt_u8_after(scopes, old.unresolved.gate_normal, "gate_normal"@, old.gate_normal, 2 < reached)
    &&& new.gate_staccato == opt_u8_after(scopes, old.unresolved.gate_staccato, "gate_staccato"@, old.gate_staccato, 3 < reached)
    &&& new.velocity_normal == opt_u8_after(scopes, old.unresolved.velocity_normal, "velocity_normal"@, old.velocity_normal, 4 < reached)
    &&& new.velocity_accent == opt_u8_after(scopes, old.unresolved.velocity_accent, "velocity_accent"@, old.velocity_accent, 5 < reached)
    &&& new.velocity_ghost == opt_u8_after(scopes, old.unresolved.velocity_ghost, "velocity_ghost"@, old.velocity_ghost, 6 < reached)
    &&& new.cc_mappings@.len() == old.cc_mappings@.len()
    &&& forall|k: int| 0 <= k < old.cc_mappings@.len() ==> {
        &&& (#[trigger] new.cc_mappings@[k]).alias == old.cc_mappings@[k].alias
        &&& new.cc_mappings@[k].cc_number_ref == old.cc_mappings@[k].cc_number_ref
        &&& new.cc_mappings@[k].cc_number == u8_after(
            scopes,
            old.cc_mappings@[k].cc_number_ref,
            "cc_number"@,
            old.cc_mappings@[k].cc_number,
            7 + k < reached,
        )
    }
}

/// Resolves the variable references of an instrument definition in place.
///
/// The steps run in the order of `instrument_failures`; the first failing
/// step ends the resolution with its error, and exactly the steps before
/// it have taken effect.
pub fn resolve_instrument(inst: &mut InstrumentDef, scope: &ScopeChain) -> (res: Result<(), EngineError>)
    requires
        scope.wf(),
    ensures
        ({
            let fs = instrument_failures(*old(inst), scope@);
            let f = first_some(fs);
            &&& res is Ok <==> f == fs.len()
            &&& res matches Err(e) ==> describes(e, fs[f]->Some_0)
            &&& instrument_after(*old(inst), *final(inst), scope@, f)
        }),
{
    let ghost pre = *inst;
    let ghost fs = instrument_failures(pre, scope@);
    proof { lemma_first_some(fs); }
    // device
    let r_device = copy_ref(&inst.unresolved.device);
    match r_device {
        Some(v) => match scope.resolve(v.as_str()) {
            None => {
                proof { lemma_first_some_at(fs, 0); }
                return Err(EngineError::UndefinedVariable { name: owned(v.as_str()), field: owned("device") });
            },
            Some(val) => {
                inst.device = owned(val);
            },
        },
        None => {},
    }
    assert(fs[0] is None);
    // channel
    let r_channel = copy_ref(&inst.unresolved.channel);
    if let Err(e) = resolve_channel_into(&mut inst.channel, scope, &r_channel) {
        proof { lemma_first_some_at(fs, 1); }
        return Err(e);
    }
    assert(fs[1] is None);
    let r = copy_ref(&inst.unresolved.gate_normal);
    if let Err(e) = resolve_opt_u8_into(&mut inst.gate_normal, scope, &r, "gate_normal") {
        proof { lemma_first_some_at(fs, 2); }
        return Err(e);
    }
    assert(fs[2] is None);
    let r = copy_ref(&inst.unresolved.gate_staccato);
    if let Err(e) = resolve_opt_u8_into(&mut inst.gate_staccato, scope, &r, "gate_staccato") {
        proof { lemma_first_some_at(fs, 3); }
        return Err(e);
    }
    assert(fs[3] is None);
    let r = copy_ref(&inst.unresolved.velocity_normal);
    if let Err(e) = resolve_opt_u8_into(&mut inst.velocity_normal, scope, &r, "velocity_normal") {
        proof { lemma_first_some_at(fs, 4); }
        return Err(e);
    }
    assert(fs[4] is None);
    let r = copy_ref(&inst.unresolved.velocity_accent);
    if let Err(e) = resolve_opt_u8_into(&mut inst.velocity_accent, scope, &r, "velocity_accent") {
        proof { lemma_first_some_at(fs, 5); }
        return Err(e);
    }
    assert(fs[5] is None);
    let r = copy_ref(&inst.unresolved.velocity_ghost);
    if let Err(e) = resolve_opt_u8_into(&mut inst.velocity_ghost, scope, &r, "velocity_ghost") {
        proof { lemma_first_some_at(fs, 6); }
        return Err(e);
    }
    assert(fs[6] is None);
    let ghost mid = *inst;
    let n = inst.cc_mappings.len();
    let mut k: usize = 0;
    while k < n
        invariant
            scope.wf(),
            fs == instrument_failures(pre, scope@),
            pre == *old(inst),
            n == pre.cc_mappings@.len(),
            k <= n,
            inst.cc_mappings@.len() == n,
            forall|j: int| 0 <= j < 7 + k ==> #[trigger] fs[j] is None,
            inst.name == mid.name && inst.note == mid.note && inst.local_vars == mid.local_vars
                && inst.unresolved == mid.unresolved && inst.device == mid.device && inst.channel == mid.channel
                && inst.gate_normal == mid.gate_normal && inst.gate_staccato == mid.gate_staccato
                && inst.velocity_normal == mid.velocity_normal && inst.velocity_accent == mid.velocity_accent
                && inst.velocity_ghost == mid.velocity_ghost,
            mid.cc_mappings == pre.cc_mappings,
            instrument_after(pre, mid, scope@, 7),
            forall|j: int| 0 <= j < n ==> {
                &&& (#[trigger] inst.cc_mappings@[j]).alias == pre.cc_mappings@[j].alias
                &&& inst.cc_mappings@[j].cc_number_ref == pre.cc_mappings@[j].cc_number_ref
                &&& inst.cc_mappings@[j].cc_number == u8_after(
                    scope@,
                    pre.cc_mappings@[j].cc_number_ref,
                    "cc_number"@,
                    pre.cc_mappings@[j].cc_number,
                    j < k,
                )
            },
        decreases n - k,
    {
        let r = copy_ref(&inst.cc_mappings[k].cc_number_ref);
        assert(fs[7 + k] == u8_ref_failure(scope@, pre.cc_mappings@[k as int].cc_number_ref, "cc_number"@));
        match r {
            Some(v) => match resolve_u8(scope, v.as_str(), "cc_number") {
                Ok(x) => {
                    let m = CcMapping {
                        alias: inst.cc_mappings[k].alias.clone(),
                        cc_number: x,
                        cc_number_ref: Some(v),
                    };
                    inst.cc_mappings.set(k, m);
                },
                Err(e) => {
                    proof {
                        lemma_first_some_at(fs, 7 + k);
                        assert(first_some(fs) == 7 + k);
                        assert(describes(e, fs[7 + k]->Some_0));
                        assert forall|j: int| 0 <= j < pre.cc_mappings@.len() implies {
                            &&& (#[trigger] inst.cc_mappings@[j]).alias == pre.cc_mappings@[j].alias
                            &&& inst.cc_mappings@[j].cc_number_ref == pre.cc_mappings@[j].cc_number_ref
                            &&& inst.cc_mappings@[j].cc_number == u8_after(
                                scope@,
                                pre.cc_mappings@[j].cc_number_ref,
                                "cc_number"@,
                                pre.cc_mappings@[j].cc_number,
                                7 + j < 7 + k,
                            )
                        } by {}
                        assert(instrument_after(pre, *inst, scope@, 7 + k));
                    }
                    return Err(e);
                },
            },
            None => {},
        }
        k += 1;
    }
    proof { lemma_first_some_at(fs, fs.len() as int); }
    Ok(())
}

/// Resolves the variable references of one kit instrument in place.
fn resolve_kit_instrument(ki: &mut KitInstrument, scope: &ScopeChain) -> (res: Result<(), EngineError>)
    requires
        scope.wf(),
    ensures
        ({
            let fs = kit_instrument_failures(*old(ki), scope@);
            let f = first_some(fs);
            &&& res is Ok <==> f == 6
            &&& res matches Err(e) ==> describes(e, fs[f]->Some_0)
            &&& kit_instrument_after(*old(ki), *final(ki), scope@, f)
        }),
{
    let ghost fs = kit_instrument_failures(*ki, scope@);
    proof { lemma_first_some(fs); }
    let r = copy_ref(&ki.unresolved.channel);
    if let Err(e) = resolve_channel_into(&mut ki.channel, scope, &r) {
        proof { lemma_first_some_at(fs, 0); }
        return Err(e);
    }
    assert(fs[0] is None);
    let r = copy_ref(&ki.unresolved.gate_normal);
    if let Err(e) = resolve_opt_u8_into(&mut ki.gate_normal, scope, &r, "gate_normal") {
        proof { lemma_first_some_at(fs, 1); }
        return Err(e);
    }
    assert(fs[1] is None);
    let r = copy_ref(&ki.unresolved.gate_staccato);
    if let Err(e) = resolve_opt_u8_into(&mut ki.gate_staccato, scope, &r, "gate_staccato") {
        proof { lemma_first_some_at(fs, 2); }
        return Err(e);
    }
    assert(fs[2] is None);
    let r = copy_ref(&ki.unresolved.velocity_normal);
    if let Err(e) = resolve_opt_u8_into(&mut ki.velocity_normal, scope, &r, "velocity_normal") {
        proof { lemma_first_some_at(fs, 3); }
        return Err(e);
    }
    assert(fs[3] is None);
    let r = copy_ref(&ki.unresolved.velocity_accent);
    if let Err(e) = resolve_opt_u8_into(&mut ki.velocity_accent, scope, &r, "velocity_accent") {
        proof { lemma_first_some_at(fs, 4); }
        return Err(e);
    }
    assert(fs[4] is None);
    let r = copy_ref(&ki.unresolved.velocity_ghost);
    if let Err(e) = resolve_opt_u8_into(&mut ki.velocity_ghost, scope, &r, "velocity_ghost") {
        proof { lemma_first_some_at(fs, 5); }
        return Err(e);
    }
    assert(fs[5] is None);
    proof { lemma_first_some_at(fs, 6); }
    Ok(())
}

/// The failure of each kit instrument's resolution, in instrument order.
pub open spec fn kit_failures(kit: KitDef, scopes: Seq<Map<Seq<char>, String>>) -> Seq<Option<Failure>> {
    Seq::new(
        kit.instruments@.len(),
        |i: int|
            {
                let fs = kit_instrument_failures(kit.instruments@[i], scopes);
                if first_some(fs) < 6 {
                    fs[first_some(fs)]
                } else {
                    None
                }
            },
    )
}

/// Resolves the variable references of every instrument of a kit in
/// place, instrument by instrument.
///
/// The first instrument whose resolution fails ends the resolution with
/// its error: the instruments before it are fully resolved, it is
/// resolved up to its failing step, and the ones after it are unchanged.
pub fn resolve_kit(kit: &mut KitDef, scope: &ScopeChain) -> (res: Result<(), EngineError>)
    requires
        scope.wf(),
    ensures
        ({
            let ks = kit_failures(*old(kit), scope@);
            let fi = first_some(ks);
            &&& res is Ok <==> fi == ks.len()
            &&& res matches Err(e) ==> describes(e, ks[fi]->Some_0)
            &&& final(kit).name == old(kit).name
            &&& final(kit).device == old(kit).device
            &&& final(kit).instruments@.len() == old(kit).instruments@.len()
            &&& forall|i: int| 0 <= i < old(kit).instruments@.len() ==> kit_instrument_after(
                old(kit).instruments@[i],
                #[trigger] final(kit).instruments@[i],
                scope@,
                if i < fi {
                    6
                } else if i == fi {
                    first_some(kit_instrument_failures(old(kit).instruments@[i], scope@))
                } else {
                    0
                },
            )
        }),
{
    let ghost pre = *kit;
    let ghost ks = kit_failures(pre, scope@);
    proof { lemma_first_some(ks); }
    let n = kit.instruments.len();
    let mut i: usize = 0;
    while i < n
        invariant
            scope.wf(),
            pre == *old(kit),
            ks == kit_failures(pre, scope@),
            n == pre.instruments@.len(),
            i <= n,
            kit.name == pre.name,
            kit.device == pre.device,
            kit.instruments@.len() == n,
            forall|j: int| 0 <= j < i ==> #[trigger] ks[j] is None,
            forall|j: int| 0 <= j < i ==> kit_instrument_after(
                pre.instruments@[j],
                #[trigger] kit.instruments@[j],
                scope@,
                6,
            ),
            forall|j: int| i <= j < n ==> #[trigger] kit.instruments@[j] == pre.instruments@[j],
        decreases n - i,
    {
        let res = resolve_kit_instrument(&mut kit.instruments[i], scope);
        proof {
            let fsi = kit_instrument_failures(pre.instruments@[i as int], scope@);
            lemma_first_some(fsi);
        }
        if let Err(e) = res {
            proof {
                lemma_first_some_at(ks, i as int);
            }
            return Err(e);
        }
        i += 1;
    }
    proof { lemma_first_some_at(ks, n as int); }
    Ok(())
}

} // verus!
