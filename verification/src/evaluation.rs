//! Evaluation of definition blocks: each is registered under its name;
//! an instrument's local variables live in a block scope while its fields
//! are resolved, a kit's fields are resolved in the current scopes, a
//! variable goes to the global scope and a tempo changes the clock.
//!
//! Playback commands (`play`, `stop`, `pause`, `resume`, `mute`, `unmute`)
//! act on the playback state and are left to the caller, as are the
//! reactions of a playing scene or session to a redefinition.

use vstd::prelude::*;

use crate::ast::{Block, InstrumentDef, KitDef, VarDef};
use crate::clock::{clamp_i64, Clock};
use crate::ast::Tempo;
use crate::error::EngineError;
use crate::registry::{Registry, RegistryModel};
use crate::resolver::{
    describes, first_some, instrument_after, instrument_failures, kit_failures, kit_instrument_after, lemma_first_some,
    resolve_instrument, resolve_kit,
};
use crate::scope::{lookup_scopes, ScopeChain};
use crate::text::owned;

verus! {

/// What evaluating a block reports.
#[derive(Debug, Clone, PartialEq)]
pub enum EvalResult {
    /// A definition was registered.
    Registered { kind: String, name: String },
    /// The tempo changed to this many beats per minute.
    TempoChanged(i64),
    ScaleChanged,
    VarDefined { name: String },
    PlayStarted,
    Stopped,
    /// Playback (or the named scene, session or clip) paused.
    Paused { target: Option<String> },
    /// A pause that had nothing to act on.
    PausedNoop { reason: String },
    Resumed { target: Option<String> },
    ResumedNoop { reason: String },
    Muted { target: String },
    MutedNoop { reason: String },
    Unmuted { target: String },
    UnmutedNoop { reason: String },
    /// An include was expanded into this many results.
    IncludeProcessed { path: String, results_count: usize },
    /// An include of a file already included was skipped.
    IncludeSkipped { path: String },
}

/// The scopes after the local variables `vars[..k]` were defined, one
/// after another, in the innermost scope.
pub open spec fn with_locals(scopes: Seq<Map<Seq<char>, String>>, vars: Seq<VarDef>, k: int) -> Seq<Map<Seq<char>, String>>
    decreases k,
{
    if k <= 0 {
        scopes
    } else {
        let s = with_locals(scopes, vars, k - 1);
        s.update(s.len() - 1, s.last().insert(vars[k - 1].name@, vars[k - 1].value))
    }
}

/// The scopes an instrument's fields are resolved in: a new block scope
/// holding its local variables.
pub open spec fn instrument_scopes(outer: Seq<Map<Seq<char>, String>>, inst: InstrumentDef) -> Seq<Map<Seq<char>, String>> {
    with_locals(outer.push(Map::<Seq<char>, String>::empty()), inst.local_vars@, inst.local_vars@.len() as int)
}

/// A device field that names a variable takes the variable's value.
pub open spec fn device_in(scopes: Seq<Map<Seq<char>, String>>, device: Seq<char>) -> Seq<char> {
    match lookup_scopes(scopes, device) {
        Some(v) => v,
        None => device,
    }
}

/// `p` is `inst` with its device field looked up.
pub open spec fn with_device_instrument(inst: InstrumentDef, p: InstrumentDef, scopes: Seq<Map<Seq<char>, String>>) -> bool {
    &&& p == InstrumentDef { device: p.device, ..inst }
    &&& p.device@ == device_in(scopes, inst.device@)
}

/// `p` is `kit` with its device field looked up.
pub open spec fn with_device_kit(kit: KitDef, p: KitDef, scopes: Seq<Map<Seq<char>, String>>) -> bool {
    &&& p == KitDef { device: p.device, ..kit }
    &&& p.device@ == device_in(scopes, kit.device@)
}

/// `new` is `old` with every instrument fully resolved.
pub open spec fn kit_resolved(old: KitDef, new: KitDef, scopes: Seq<Map<Seq<char>, String>>) -> bool {
    &&& new.name == old.name
    &&& new.device == old.device
    &&& new.instruments@.len() == old.instruments@.len()
    &&& forall|i: int|
        0 <= i < old.instruments@.len() ==> kit_instrument_after(old.instruments@[i], #[trigger] new.instruments@[i], scopes, 6)
}

/// `r` reports that a definition of kind `kind` named `name` was
/// registered.
pub open spec fn registered(r: Option<Result<EvalResult, EngineError>>, kind: Seq<char>, name: Seq<char>) -> bool {
    r matches Some(Ok(EvalResult::Registered { kind: k, name: n })) && k@ == kind && n@ == name
}

/// Evaluating an instrument: with its device looked up and its fields
/// resolved in its block scope it is registered and the block scope is
/// closed; a field that cannot be resolved is an error, and the registry
/// is unchanged while the block scope stays open.
pub open spec fn instrument_eval(
    reg: RegistryModel,
    scopes: Seq<Map<Seq<char>, String>>,
    inst: InstrumentDef,
    r: Option<Result<EvalResult, EngineError>>,
    reg2: RegistryModel,
    scopes2: Seq<Map<Seq<char>, String>>,
) -> bool {
    let s = instrument_scopes(scopes, inst);
    exists|p: InstrumentDef|
        #![trigger with_device_instrument(inst, p, s)]
        with_device_instrument(inst, p, s) && {
            let fs = instrument_failures(p, s);
            let f = first_some(fs);
            if f == fs.len() {
                &&& registered(r, "Instrument"@, inst.name@)
                &&& scopes2 == scopes
                &&& exists|q: InstrumentDef| instrument_after(p, q, s, f) && reg2 == reg.register(Block::Instrument(q))
            } else {
                &&& r matches Some(Err(e)) && describes(e, fs[f]->Some_0)
                &&& reg2 == reg
                &&& scopes2 == s
            }
        }
}

/// Evaluating a kit: with its device looked up and every instrument
/// resolved it is registered; the first instrument field that cannot be
/// resolved is an error and the registry is unchanged.
pub open spec fn kit_eval(
    reg: RegistryModel,
    scopes: Seq<Map<Seq<char>, String>>,
    kit: KitDef,
    r: Option<Result<EvalResult, EngineError>>,
    reg2: RegistryModel,
) -> bool {
    exists|p: KitDef|
        #![trigger with_device_kit(kit, p, scopes)]
        with_device_kit(kit, p, scopes) && {
            let ks = kit_failures(p, scopes);
            let fi = first_some(ks);
            if fi == ks.len() {
                &&& registered(r, "Kit"@, kit.name@)
                &&& exists|q: KitDef| kit_resolved(p, q, scopes) && reg2 == reg.register(Block::Kit(q))
            } else {
                &&& r matches Some(Err(e)) && describes(e, ks[fi]->Some_0)
                &&& reg2 == reg
            }
        }
}

/// The scopes after `with_locals` have the same outer scopes and depth.
proof fn lemma_with_locals(scopes: Seq<Map<Seq<char>, String>>, vars: Seq<VarDef>, k: int)
    requires
        scopes.len() >= 1,
    ensures
        with_locals(scopes, vars, k).len() == scopes.len(),
        with_locals(scopes, vars, k).drop_last() == scopes.drop_last(),
    decreases k,
{
    if k > 0 {
        lemma_with_locals(scopes, vars, k - 1);
        let s = with_locals(scopes, vars, k - 1);
        assert(s.update(s.len() - 1, s.last().insert(vars[k - 1].name@, vars[k - 1].value)).drop_last() =~= s.drop_last());
    }
}

/// Evaluates an instrument block: see `instrument_eval`.
fn eval_instrument(registry: &mut Registry, scope: &mut ScopeChain, inst: InstrumentDef) -> (r: Option<Result<EvalResult, EngineError>>)
    requires
        old(registry).wf(),
        old(scope).wf(),
    ensures
        final(registry).wf(),
        final(scope).wf(),
        instrument_eval(old(registry)@, old(scope)@, inst, r, final(registry)@, final(scope)@),
{
    let ghost outer = scope@;
    proof {
        scope.lemma_has_global();
    }
    let ghost orig = inst;
    let mut inst = inst;
    scope.push_scope();
    let mut i: usize = 0;
    while i < inst.local_vars.len()
        invariant
            scope.wf(),
            inst == orig,
            outer.len() >= 1,
            i <= inst.local_vars@.len(),
            scope@ == with_locals(outer.push(Map::<Seq<char>, String>::empty()), inst.local_vars@, i as int),
        decreases inst.local_vars@.len() - i,
    {
        let name = inst.local_vars[i].name.clone();
        let value = inst.local_vars[i].value.clone();
        scope.define(name, value);
        i += 1;
    }
    let ghost s = scope@;
    assert(s == instrument_scopes(outer, orig));
    let resolved_device = match scope.resolve(inst.device.as_str()) {
        Some(v) => Some(owned(v)),
        None => None,
    };
    if let Some(d) = resolved_device {
        inst.device = d;
    }
    let ghost p = inst;
    assert(with_device_instrument(orig, p, s));
    let res = resolve_instrument(&mut inst, scope);
    proof {
        lemma_first_some(instrument_failures(p, s));
    }
    match res {
        Ok(()) => {
            proof {
                lemma_with_locals(outer.push(Map::<Seq<char>, String>::empty()), orig.local_vars@, orig.local_vars@.len() as int);
                assert(outer.push(Map::<Seq<char>, String>::empty()).drop_last() =~= outer);
            }
            scope.pop_scope();
            let name = inst.name.clone();
            let ghost q = inst;
            registry.register_block(Block::Instrument(inst));
            assert(instrument_after(p, q, s, instrument_failures(p, s).len() as int));
            Some(Ok(EvalResult::Registered { kind: owned("Instrument"), name }))
        },
        Err(e) => Some(Err(e)),
    }
}

/// Evaluates a kit block: see `kit_eval`.
fn eval_kit(registry: &mut Registry, scope: &ScopeChain, kit: KitDef) -> (r: Option<Result<EvalResult, EngineError>>)
    requires
        old(registry).wf(),
        scope.wf(),
    ensures
        final(registry).wf(),
        kit_eval(old(registry)@, scope@, kit, r, final(registry)@),
{
    let ghost orig = kit;
    let mut kit = kit;
    let resolved_device = match scope.resolve(kit.device.as_str()) {
        Some(v) => Some(owned(v)),
        None => None,
    };
    if let Some(d) = resolved_device {
        kit.device = d;
    }
    let ghost p = kit;
    assert(with_device_kit(orig, p, scope@));
    let res = resolve_kit(&mut kit, scope);
    proof {
        lemma_first_some(kit_failures(p, scope@));
    }
    match res {
        Ok(()) => {
            let name = kit.name.clone();
            let ghost q = kit;
            registry.register_block(Block::Kit(kit));
            assert(kit_resolved(p, q, scope@));
            Some(Ok(EvalResult::Registered { kind: owned("Kit"), name }))
        },
        Err(e) => Some(Err(e)),
    }
}

/// What evaluating the definition block `block` does to the registry,
/// the scopes and the clock, and what it reports (`None` for a playback
/// command).
pub open spec fn definition_outcome(
    reg0: RegistryModel,
    sc0: Seq<Map<Seq<char>, String>>,
    c0: Clock,
    block: Block,
    r: Option<Result<EvalResult, EngineError>>,
    reg1: RegistryModel,
    sc1: Seq<Map<Seq<char>, String>>,
    c1: Clock,
) -> bool {
    match block {
        Block::Instrument(inst) => instrument_eval(reg0, sc0, inst, r, reg1, sc1)
            && c1 == c0,
        Block::Kit(kit) => kit_eval(reg0, sc0, kit, r, reg1) && sc1 == sc0
            && c1 == c0,
        Block::Var(v) => r matches Some(Ok(EvalResult::VarDefined { name })) && name@ == v.name@
            && reg1 == reg0.register(block) && sc1 == sc0.update(
            0,
            sc0[0].insert(v.name@, v.value),
        ) && c1 == c0,
        Block::Tempo(t) => r matches Some(Ok(EvalResult::TempoChanged(bpm))) && bpm == c1.bpm_spec()
            && c1.bpm_spec() == match t {
            Tempo::Absolute(v) => v as int,
            Tempo::Relative(d) => clamp_i64(c0.bpm_spec() + d),
        } && c1.ppq_spec() == c0.ppq_spec() && c1.time_sig_spec() == c0.time_sig_spec()
            && reg1 == reg0.register(block) && sc1 == sc0,
        Block::Scale(_) => r matches Some(Ok(EvalResult::ScaleChanged)) && reg1 == reg0.register(block)
            && sc1 == sc0 && c1 == c0,
        Block::Device(d) => registered(r, "Device"@, d.name@) && reg1 == reg0.register(block)
            && sc1 == sc0 && c1 == c0,
        Block::Clip(c) => registered(r, "Clip"@, c.name@) && reg1 == reg0.register(block)
            && sc1 == sc0 && c1 == c0,
        Block::Scene(sc) => registered(r, "Scene"@, sc.name@) && reg1 == reg0.register(block)
            && sc1 == sc0 && c1 == c0,
        Block::Session(se) => registered(r, "Session"@, se.name@) && reg1 == reg0.register(block)
            && sc1 == sc0 && c1 == c0,
        Block::Include(inc) => r matches Some(Ok(EvalResult::IncludeProcessed { path, results_count }))
            && path@ == inc.path@ && results_count == 0 && reg1 == reg0
            && sc1 == sc0 && c1 == c0,
        _ => r is None && reg1 == reg0 && sc1 == sc0 && c1 == c0,
    }
}

/// Evaluates a definition block against the registry, the scopes and the
/// clock; gives `None`, changing nothing, for a playback command.
pub fn eval_definition(registry: &mut Registry, scope: &mut ScopeChain, clock: &mut Clock, block: Block) -> (r: Option<
    Result<EvalResult, EngineError>,
>)
    requires
        old(registry).wf(),
        old(scope).wf(),
    ensures
        final(registry).wf(),
        final(scope).wf(),
        definition_outcome(old(registry)@, old(scope)@, *old(clock), block, r, final(registry)@, final(scope)@, *final(clock)),
{
    match block {
        Block::Instrument(inst) => eval_instrument(registry, scope, inst),
        Block::Kit(kit) => eval_kit(registry, scope, kit),
        Block::Var(v) => {
            let name = v.name.clone();
            scope.define_global(v.name.clone(), v.value.clone());
            registry.register_block(Block::Var(v));
            Some(Ok(EvalResult::VarDefined { name }))
        },
        Block::Tempo(t) => {
            clock.apply_tempo(&t);
            registry.register_block(Block::Tempo(t));
            Some(Ok(EvalResult::TempoChanged(clock.bpm())))
        },
        Block::Scale(sc) => {
            registry.register_block(Block::Scale(sc));
            Some(Ok(EvalResult::ScaleChanged))
        },
        Block::Device(d) => {
            let name = d.name.clone();
            registry.register_block(Block::Device(d));
            Some(Ok(EvalResult::Registered { kind: owned("Device"), name }))
        },
        Block::Clip(c) => {
            let name = c.name.clone();
            registry.register_block(Block::Clip(c));
            Some(Ok(EvalResult::Registered { kind: owned("Clip"), name }))
        },
        Block::Scene(sc) => {
            let name = sc.name.clone();
            registry.register_block(Block::Scene(sc));
            Some(Ok(EvalResult::Registered { kind: owned("Scene"), name }))
        },
        Block::Session(se) => {
            let name = se.name.clone();
            registry.register_block(Block::Session(se));
            Some(Ok(EvalResult::Registered { kind: owned("Session"), name }))
        },
        Block::Include(inc) => Some(Ok(EvalResult::IncludeProcessed { path: inc.path, results_count: 0 })),
        _ => None,
    }
}

} // verus!
