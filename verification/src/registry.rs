//! The registry of named definitions: devices, instruments, kits, clips,
//! scenes, sessions and variables, plus the global tempo and scale.

use vstd::prelude::*;

use crate::ast::{Block, ClipDef, DeviceDef, InstrumentDef, KitDef, ScaleDef, SceneDef, SessionDef, Tempo};
use crate::named_map::NamedMap;
use crate::text::{str_lt, text_lt, lemma_text_lt_total, lemma_text_lt_transitive};

verus! {

/// Names strictly increasing in lexicographic order.
pub open spec fn strictly_sorted(s: Seq<Seq<char>>) -> bool {
    forall|i: int, j: int| 0 <= i < j < s.len() ==> text_lt(#[trigger] s[i], #[trigger] s[j])
}

/// The names of devices whose `transport` flag is set.
pub open spec fn transport_names(devices: Map<Seq<char>, DeviceDef>) -> Set<Seq<char>> {
    Set::new(|k: Seq<char>| devices.contains_key(k) && devices[k].transport)
}

/// The characters of each string of a list.
pub open spec fn texts(v: Seq<String>) -> Seq<Seq<char>> {
    v.map_values(|s: String| s@)
}

/// What a registry holds, as mathematical maps and values.
#[verifier::ext_equal]
pub struct RegistryModel {
    pub devices: Map<Seq<char>, DeviceDef>,
    pub instruments: Map<Seq<char>, InstrumentDef>,
    pub kits: Map<Seq<char>, KitDef>,
    pub clips: Map<Seq<char>, ClipDef>,
    pub scenes: Map<Seq<char>, SceneDef>,
    pub sessions: Map<Seq<char>, SessionDef>,
    pub variables: Map<Seq<char>, String>,
    pub tempo: Option<Tempo>,
    pub scale: Option<ScaleDef>,
}

/// Whether a block is a definition that the registry stores (as opposed to
/// a playback command or an include).
pub open spec fn is_definition(block: Block) -> bool {
    match block {
        Block::Play(_) | Block::Stop(_) | Block::Pause(_) | Block::Resume(_) | Block::Mute(_)
        | Block::Unmute(_) | Block::Include(_) => false,
        _ => true,
    }
}

impl RegistryModel {
    /// The model after registering `block`: the definition is stored under
    /// its name (replacing an earlier one of the same name), a tempo or
    /// scale replaces the current one, and commands change nothing.
    pub open spec fn register(self, block: Block) -> RegistryModel {
        match block {
            Block::Device(d) => RegistryModel { devices: self.devices.insert(d.name@, d), ..self },
            Block::Instrument(i) => RegistryModel { instruments: self.instruments.insert(i.name@, i), ..self },
            Block::Kit(k) => RegistryModel { kits: self.kits.insert(k.name@, k), ..self },
            Block::Clip(c) => RegistryModel { clips: self.clips.insert(c.name@, c), ..self },
            Block::Scene(sc) => RegistryModel { scenes: self.scenes.insert(sc.name@, sc), ..self },
            Block::Session(se) => RegistryModel { sessions: self.sessions.insert(se.name@, se), ..self },
            Block::Var(v) => RegistryModel { variables: self.variables.insert(v.name@, v.value), ..self },
            Block::Tempo(t) => RegistryModel { tempo: Some(t), ..self },
            Block::Scale(sc) => RegistryModel { scale: Some(sc), ..self },
            _ => self,
        }
    }

    /// Nothing is registered.
    pub open spec fn is_empty(self) -> bool {
        &&& self.devices == Map::<Seq<char>, DeviceDef>::empty()
        &&& self.instruments == Map::<Seq<char>, InstrumentDef>::empty()
        &&& self.kits == Map::<Seq<char>, KitDef>::empty()
        &&& self.clips == Map::<Seq<char>, ClipDef>::empty()
        &&& self.scenes == Map::<Seq<char>, SceneDef>::empty()
        &&& self.sessions == Map::<Seq<char>, SessionDef>::empty()
        &&& self.variables == Map::<Seq<char>, String>::empty()
        &&& self.tempo is None
        &&& self.scale is None
    }
}

/// Named registry of DSL definition blocks. Registering a name that exists
/// replaces its definition.
pub struct Registry {
    devices: NamedMap<DeviceDef>,
    /// Names of transport-enabled devices, sorted; rebuilt whenever a
    /// device is registered.
    transport_enabled_cache: Vec<String>,
    instruments: NamedMap<InstrumentDef>,
    kits: NamedMap<KitDef>,
    clips: NamedMap<ClipDef>,
    scenes: NamedMap<SceneDef>,
    sessions: NamedMap<SessionDef>,
    variables: NamedMap<String>,
    tempo: Option<Tempo>,
    scale: Option<ScaleDef>,
}

impl Default for Registry {
    /// An empty registry.
    fn default() -> (r: Registry)
        ensures
            r.wf(),
            r@.is_empty(),
    {
        Registry::new()
    }
}

impl Registry {
    /// The registry's contents.
    pub closed spec fn view(self) -> RegistryModel {
        RegistryModel {
            devices: self.devices@,
            instruments: self.instruments@,
            kits: self.kits@,
            clips: self.clips@,
            scenes: self.scenes@,
            sessions: self.sessions@,
            variables: self.variables@,
            tempo: self.tempo,
            scale: self.scale,
        }
    }

    /// The transport-enabled device names as kept, in order.
    pub closed spec fn transport_cache_view(self) -> Seq<Seq<char>> {
        texts(self.transport_enabled_cache@)
    }

    /// Every table is well formed and the transport cache lists exactly the
    /// transport-enabled devices, sorted.
    pub closed spec fn wf(self) -> bool {
        &&& self.devices.wf()
        &&& self.instruments.wf()
        &&& self.kits.wf()
        &&& self.clips.wf()
        &&& self.scenes.wf()
        &&& self.sessions.wf()
        &&& self.variables.wf()
        &&& strictly_sorted(self.transport_cache_view())
        &&& self.transport_cache_view().to_set() == transport_names(self.devices@)
    }

    /// An empty registry.
    pub fn new() -> (r: Registry)
        ensures
            r.wf(),
            r@.is_empty(),
            r@.devices == Map::<Seq<char>, DeviceDef>::empty(),
            r.transport_cache_view() == Seq::<Seq<char>>::empty(),
    {
        let r = Registry {
            devices: NamedMap::new(),
            transport_enabled_cache: Vec::new(),
            instruments: NamedMap::new(),
            kits: NamedMap::new(),
            clips: NamedMap::new(),
            scenes: NamedMap::new(),
            sessions: NamedMap::new(),
            variables: NamedMap::new(),
            tempo: None,
            scale: None,
        };
        assert(r.transport_cache_view() =~= Seq::<Seq<char>>::empty());
        assert(r.transport_cache_view().to_set() =~= transport_names(r.devices@));
        r
    }

    /// Registers a block by its kind; a definition replaces any earlier one
    /// of the same name. Playback commands and includes are not stored and
    /// give `false`.
    pub fn register_block(&mut self, block: Block) -> (r: bool)
        requires
            old(self).wf(),
        ensures
            final(self).wf(),
            r == is_definition(block),
            final(self)@ == old(self)@.register(block),
    {
        let ghost b = block;
        match block {
            Block::Device(d) => {
                let name = d.name.clone();
                self.devices.insert(name, d);
                self.rebuild_transport_cache();
                true
            },
            Block::Instrument(i) => {
                let name = i.name.clone();
                self.instruments.insert(name, i);
                true
            },
            Block::Kit(k) => {
                let name = k.name.clone();
                self.kits.insert(name, k);
                true
            },
            Block::Clip(c) => {
                let name = c.name.clone();
                self.clips.insert(name, c);
                true
            },
            Block::Scene(sc) => {
                let name = sc.name.clone();
                self.scenes.insert(name, sc);
                true
            },
            Block::Session(se) => {
                let name = se.name.clone();
                self.sessions.insert(name, se);
                true
            },
            Block::Var(v) => {
                self.variables.insert(v.name, v.value);
                true
            },
            Block::Tempo(t) => {
                self.tempo = Some(t);
                true
            },
            Block::Scale(sc) => {
                self.scale = Some(sc);
                true
            },
            Block::Play(_) | Block::Stop(_) | Block::Pause(_) | Block::Resume(_) | Block::Mute(_)
            | Block::Unmute(_) | Block::Include(_) => false,
        }
    }

    /// Recomputes the sorted list of transport-enabled device names.
    fn rebuild_transport_cache(&mut self)
        requires
            old(self).devices.wf(),
        ensures
            final(self).devices == old(self).devices,
            final(self).instruments == old(self).instruments,
            final(self).kits == old(self).kits,
            final(self).clips == old(self).clips,
            final(self).scenes == old(self).scenes,
            final(self).sessions == old(self).sessions,
            final(self).variables == old(self).variables,
            final(self).tempo == old(self).tempo,
            final(self).scale == old(self).scale,
            strictly_sorted(final(self).transport_cache_view()),
            final(self).transport_cache_view().to_set() == transport_names(final(self).devices@),
    {
        let names = transport_cache_of(&self.devices);
        self.transport_enabled_cache = names;
    }

    /// The device named `name`, if registered.
    pub fn get_device(&self, name: &str) -> (r: Option<&DeviceDef>)
        requires
            self.wf(),
        ensures
            match r {
                Some(v) => self@.devices.contains_key(name@) && *v == self@.devices[name@],
                None => !self@.devices.contains_key(name@),
            },
    {
        self.devices.get(name)
    }

    /// The instrument named `name`, if registered.
    pub fn get_instrument(&self, name: &str) -> (r: Option<&InstrumentDef>)
        requires
            self.wf(),
        ensures
            match r {
                Some(v) => self@.instruments.contains_key(name@) && *v == self@.instruments[name@],
                None => !self@.instruments.contains_key(name@),
            },
    {
        self.instruments.get(name)
    }

    /// The kit named `name`, if registered.
    pub fn get_kit(&self, name: &str) -> (r: Option<&KitDef>)
        requires
            self.wf(),
        ensures
            match r {
                Some(v) => self@.kits.contains_key(name@) && *v == self@.kits[name@],
                None => !self@.kits.contains_key(name@),
            },
    {
        self.kits.get(name)
    }

    /// The clip named `name`, if registered.
    pub fn get_clip(&self, name: &str) -> (r: Option<&ClipDef>)
        requires
            self.wf(),
        ensures
            match r {
                Some(v) => self@.clips.contains_key(name@) && *v == self@.clips[name@],
                None => !self@.clips.contains_key(name@),
            },
    {
        self.clips.get(name)
    }

    /// The scene named `name`, if registered.
    pub fn get_scene(&self, name: &str) -> (r: Option<&SceneDef>)
        requires
            self.wf(),
        ensures
            match r {
                Some(v) => self@.scenes.contains_key(name@) && *v == self@.scenes[name@],
                None => !self@.scenes.contains_key(name@),
            },
    {
        self.scenes.get(name)
    }

    /// The session named `name`, if registered.
    pub fn get_session(&self, name: &str) -> (r: Option<&SessionDef>)
        requires
            self.wf(),
        ensures
            match r {
                Some(v) => self@.sessions.contains_key(name@) && *v == self@.sessions[name@],
                None => !self@.sessions.contains_key(name@),
            },
    {
        self.sessions.get(name)
    }

    /// The value of the variable named `name`, if registered.
    pub fn get_var(&self, name: &str) -> (r: Option<&str>)
        requires
            self.wf(),
        ensures
            match r {
                Some(v) => self@.variables.contains_key(name@) && v@ == self@.variables[name@]@,
                None => !self@.variables.contains_key(name@),
            },
    {
        match self.variables.get(name) {
            Some(v) => Some(v.as_str()),
            None => None,
        }
    }

    /// The global tempo, if one was registered.
    pub fn tempo(&self) -> (r: Option<&Tempo>)
        ensures
            match r {
                Some(t) => self@.tempo == Some(*t),
                None => self@.tempo is None,
            },
    {
        self.tempo.as_ref()
    }

    /// The global scale, if one was registered.
    pub fn scale(&self) -> (r: Option<&ScaleDef>)
        ensures
            match r {
                Some(sc) => self@.scale == Some(*sc),
                None => self@.scale is None,
            },
    {
        self.scale.as_ref()
    }

    /// Names of the transport-enabled devices, sorted, without repeats.
    pub fn transport_enabled_device_names(&self) -> (r: &[String])
        requires
            self.wf(),
        ensures
            texts(r@) == self.transport_cache_view(),
            strictly_sorted(texts(r@)),
            texts(r@).to_set() == transport_names(self@.devices),
    {
        self.transport_enabled_cache.as_slice()
    }

    /// Names of all registered devices, each once.
    pub fn device_names(&self) -> (r: Vec<String>)
        requires
            self.wf(),
        ensures
            names_of(r@, self@.devices.dom()),
    {
        self.devices.names()
    }

    /// Names of all registered instruments, each once.
    pub fn instrument_names(&self) -> (r: Vec<String>)
        requires
            self.wf(),
        ensures
            names_of(r@, self@.instruments.dom()),
    {
        self.instruments.names()
    }

    /// Names of all registered kits, each once.
    pub fn kit_names(&self) -> (r: Vec<String>)
        requires
            self.wf(),
        ensures
            names_of(r@, self@.kits.dom()),
    {
        self.kits.names()
    }

    /// Names of all registered clips, each once.
    pub fn clip_names(&self) -> (r: Vec<String>)
        requires
            self.wf(),
        ensures
            names_of(r@, self@.clips.dom()),
    {
        self.clips.names()
    }

    /// Names of all registered scenes, each once.
    pub fn scene_names(&self) -> (r: Vec<String>)
        requires
            self.wf(),
        ensures
            names_of(r@, self@.scenes.dom()),
    {
        self.scenes.names()
    }

    /// Names of all registered sessions, each once.
    pub fn session_names(&self) -> (r: Vec<String>)
        requires
            self.wf(),
        ensures
            names_of(r@, self@.sessions.dom()),
    {
        self.sessions.names()
    }

    /// Names of all registered variables, each once.
    pub fn var_names(&self) -> (r: Vec<String>)
        requires
            self.wf(),
        ensures
            names_of(r@, self@.variables.dom()),
    {
        self.variables.names()
    }

    /// The table of instrument definitions.
    pub fn instruments(&self) -> (r: &NamedMap<InstrumentDef>)
        requires
            self.wf(),
        ensures
            r.wf(),
            r@ == self@.instruments,
    {
        &self.instruments
    }

    /// The table of kit definitions.
    pub fn kits(&self) -> (r: &NamedMap<KitDef>)
        requires
            self.wf(),
        ensures
            r.wf(),
            r@ == self@.kits,
    {
        &self.kits
    }

    /// Whether nothing at all is registered.
    pub fn is_empty(&self) -> (r: bool)
        requires
            self.wf(),
        ensures
            r == self@.is_empty(),
    {
        self.devices.is_empty() && self.instruments.is_empty() && self.kits.is_empty()
            && self.clips.is_empty() && self.scenes.is_empty() && self.sessions.is_empty()
            && self.variables.is_empty() && self.tempo.is_none() && self.scale.is_none()
    }
}

/// `v` lists exactly the names of `dom`, each once.
pub open spec fn names_of(v: Seq<String>, dom: Set<Seq<char>>) -> bool {
    &&& forall|k: Seq<char>| dom.contains(k) <==> exists|i: int| 0 <= i < v.len() && #[trigger] v[i]@ == k
    &&& forall|i: int, j: int| 0 <= i < j < v.len() ==> #[trigger] v[i]@ != #[trigger] v[j]@
}

/// The names among the first `n` entries of a device table whose
/// `transport` flag is set.
pub open spec fn transport_prefix(devices: NamedMap<DeviceDef>, n: int) -> Set<Seq<char>> {
    Set::new(|k: Seq<char>| exists|j: int| 0 <= j < n && devices.key_at(j) == k && #[trigger] devices.pairs()[j].1.transport)
}

/// The sorted names of the transport-enabled devices of a table.
fn transport_cache_of(devices: &NamedMap<DeviceDef>) -> (r: Vec<String>)
    requires
        devices.wf(),
    ensures
        strictly_sorted(texts(r@)),
        texts(r@).to_set() == transport_names(devices@),
{
    let mut names: Vec<String> = Vec::new();
    let mut i: usize = 0;
    assert(texts(names@).to_set() =~= transport_prefix(*devices, 0));
    while i < devices.len()
        invariant
            devices.wf(),
            i <= devices.pairs().len(),
            strictly_sorted(texts(names@)),
            texts(names@).to_set() == transport_prefix(*devices, i as int),
        decreases devices.pairs().len() - i,
    {
        if devices.value_at(i).transport {
            let name = devices.name_at(i).clone();
            proof {
                if texts(names@).contains(name@) {
                    assert(texts(names@).to_set().contains(name@));
                    let j = choose|j: int| 0 <= j < i && devices.key_at(j) == name@ && #[trigger] devices.pairs()[j].1.transport;
                    assert(devices.key_at(j) != devices.key_at(i as int));
                }
            }
            insert_sorted(&mut names, name);
            proof {
                assert forall|k: Seq<char>| #[trigger] transport_prefix(*devices, i + 1).contains(k) == transport_prefix(*devices, i as int).insert(devices.key_at(i as int)).contains(k) by {
                    if transport_prefix(*devices, i + 1).contains(k) {
                        let j = choose|j: int| 0 <= j < i + 1 && devices.key_at(j) == k && #[trigger] devices.pairs()[j].1.transport;
                        if j < i {
                            assert(transport_prefix(*devices, i as int).contains(k));
                        }
                    }
                    if transport_prefix(*devices, i as int).contains(k) {
                        let j = choose|j: int| 0 <= j < i && devices.key_at(j) == k && #[trigger] devices.pairs()[j].1.transport;
                        assert(0 <= j < i + 1);
                    }
                    if k == devices.key_at(i as int) {
                        assert(devices.pairs()[i as int].1.transport);
                    }
                }
                assert(transport_prefix(*devices, i + 1) =~= transport_prefix(*devices, i as int).insert(devices.key_at(i as int)));
            }
        } else {
            proof {
                assert forall|k: Seq<char>| #[trigger] transport_prefix(*devices, i + 1).contains(k) == transport_prefix(*devices, i as int).contains(k) by {
                    if transport_prefix(*devices, i + 1).contains(k) {
                        let j = choose|j: int| 0 <= j < i + 1 && devices.key_at(j) == k && #[trigger] devices.pairs()[j].1.transport;
                        assert(j != i);
                    }
                    if transport_prefix(*devices, i as int).contains(k) {
                        let j = choose|j: int| 0 <= j < i && devices.key_at(j) == k && #[trigger] devices.pairs()[j].1.transport;
                        assert(0 <= j < i + 1);
                    }
                }
                assert(transport_prefix(*devices, i + 1) =~= transport_prefix(*devices, i as int));
            }
        }
        i += 1;
    }
    proof {
        assert forall|k: Seq<char>| #[trigger] transport_prefix(*devices, i as int).contains(k) == transport_names(devices@).contains(k) by {
            if transport_prefix(*devices, i as int).contains(k) {
                let j = choose|j: int| 0 <= j < i && devices.key_at(j) == k && #[trigger] devices.pairs()[j].1.transport;
                devices.lemma_index_of(j);
            }
            if transport_names(devices@).contains(k) {
                let j = devices.index_of(k);
                devices.lemma_index_of(j);
                assert(devices.pairs()[j].1.transport);
            }
        }
        assert(transport_prefix(*devices, i as int) =~= transport_names(devices@));
    }
    names
}

/// The first position in a sorted list of names whose name does not sort
/// before `s`.
fn sorted_position(v: &Vec<String>, s: &str) -> (i: usize)
    ensures
        i <= v@.len(),
        forall|j: int| 0 <= j < i ==> text_lt(#[trigger] texts(v@)[j], s@),
        i < v@.len() ==> !text_lt(texts(v@)[i as int], s@),
{
    let mut i: usize = 0;
    while i < v.len()
        invariant
            i <= v@.len(),
            forall|j: int| 0 <= j < i ==> text_lt(#[trigger] texts(v@)[j], s@),
        decreases v@.len() - i,
    {
        assert(texts(v@)[i as int] == v@[i as int]@);
        if !str_lt(v[i].as_str(), s) {
            return i;
        }
        i += 1;
    }
    i
}

/// Inserts `s` into a strictly sorted list of names that lacks it,
/// keeping the list strictly sorted.
fn insert_sorted(v: &mut Vec<String>, s: String)
    requires
        strictly_sorted(texts(old(v)@)),
        !texts(old(v)@).contains(s@),
    ensures
        strictly_sorted(texts(final(v)@)),
        texts(final(v)@).to_set() == texts(old(v)@).to_set().insert(s@),
{
    let ghost pre = texts(v@);
    let ghost k = s@;
    let i = sorted_position(v, s.as_str());
    v.insert(i, s);
    proof {
        let post = texts(v@);
        assert(post =~= pre.insert(i as int, k));
        if i < pre.len() {
            assert(!text_lt(pre[i as int], k));
            assert(pre[i as int] != k);
            lemma_text_lt_total(pre[i as int], k);
            assert(text_lt(k, pre[i as int]));
        }
        assert forall|a: int, b: int| 0 <= a < b < post.len() implies text_lt(#[trigger] post[a], #[trigger] post[b]) by {
            if b < i {
                assert(post[a] == pre[a] && post[b] == pre[b]);
            } else if b == i {
                assert(post[a] == pre[a]);
            } else if a == i {
                assert(post[b] == pre[b - 1]);
                if b - 1 > i {
                    assert(text_lt(pre[i as int], pre[b - 1]));
                    lemma_text_lt_transitive(k, pre[i as int], pre[b - 1]);
                }
            } else if a < i {
                assert(post[a] == pre[a] && post[b] == pre[b - 1]);
                if a < b - 1 {
                } else {
                }
                if b - 1 == a {
                } else {
                    assert(text_lt(pre[a], pre[b - 1]));
                }
            } else {
                assert(post[a] == pre[a - 1] && post[b] == pre[b - 1]);
            }
        }
        assert forall|x: Seq<char>| #[trigger] post.to_set().contains(x) == pre.to_set().insert(k).contains(x) by {
            if pre.contains(x) {
                let j = choose|j: int| 0 <= j < pre.len() && pre[j] == x;
                if j < i {
                    assert(post[j] == x);
                } else {
                    assert(post[j + 1] == x);
                }
            }
            if x == k {
                assert(post[i as int] == k);
            }
            if post.contains(x) {
                let j = choose|j: int| 0 <= j < post.len() && post[j] == x;
                if j < i {
                    assert(pre[j] == x);
                } else if j > i {
                    assert(pre[j - 1] == x);
                }
            }
        }
        assert(post.to_set() =~= pre.to_set().insert(k));
    }
}

} // verus!
