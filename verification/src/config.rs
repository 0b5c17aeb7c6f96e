//! `~/.myo/config.json`: the shell's persisted `shell` section (the four
//! capability toggles and the incognito switch) and the updater's
//! `auto_update` section with its defaults. Each side loads the whole
//! document, touches only its own section and writes it back, so the two
//! coexist. Reading and writing the file happen at the edge; these functions
//! take and give its text or document.

use vstd::prelude::*;

use crate::capabilities::Capabilities;
use crate::json::{member, pairs_view, parsed_json, set_member, Json, JsonV};
use crate::text::owned;

verus! {

/// Why a config document could not be read.
#[derive(Debug, Clone, Copy, PartialEq, Eq, Structural)]
pub enum ConfigError {
    /// The file is not valid JSON.
    InvalidJson,
}

/// The persisted half of the shell's state: the `shell` key.
#[derive(Debug, Clone, Copy, PartialEq, Eq, Structural)]
pub struct ShellSettings {
    /// The four capability toggles.
    pub capabilities: Capabilities,
    /// Memory paused: turns run incognito so nothing is persisted.
    pub incognito: bool,
}

pub open spec fn default_caps() -> Capabilities {
    Capabilities { web: true, files: false, code: false, reach_out: false }
}

pub open spec fn default_settings() -> ShellSettings {
    ShellSettings { capabilities: default_caps(), incognito: false }
}

impl Default for ShellSettings {
    /// The default toggles (web on, the rest off), not incognito.
    fn default() -> (s: Self)
        ensures
            s == default_settings(),
    {
        ShellSettings { capabilities: Capabilities::default(), incognito: false }
    }
}

// ---------------------------------------------------------------------------
// Reading a section the way `serde_json::from_value` does for a struct whose
// missing fields take their defaults: an object by field names (unknown
// names ignored), or an array by position (no more elements than fields);
// anything else, or a field of the wrong type, fails.
// ---------------------------------------------------------------------------

/// A boolean field: its default when absent, the value when a boolean, a
/// failure otherwise.
pub open spec fn bool_field(v: Option<JsonV>, default: bool) -> Option<bool> {
    match v {
        None => Some(default),
        Some(JsonV::Bool(b)) => Some(b),
        Some(_) => None,
    }
}

/// Element `k` of an array, if there is one.
pub open spec fn elem(a: Seq<JsonV>, k: int) -> Option<JsonV> {
    if 0 <= k < a.len() {
        Some(a[k])
    } else {
        None
    }
}

/// The toggles a value deserializes to.
pub open spec fn caps_from(v: JsonV) -> Option<Capabilities> {
    let d = default_caps();
    let fields = match v {
        JsonV::Object(m) => Some(
            (
                bool_field(member(m, "web"@), d.web),
                bool_field(member(m, "files"@), d.files),
                bool_field(member(m, "code"@), d.code),
                bool_field(member(m, "reach_out"@), d.reach_out),
            ),
        ),
        JsonV::Array(a) => if a.len() <= 4 {
            Some(
                (
                    bool_field(elem(a, 0), d.web),
                    bool_field(elem(a, 1), d.files),
                    bool_field(elem(a, 2), d.code),
                    bool_field(elem(a, 3), d.reach_out),
                ),
            )
        } else {
            None
        },
        _ => None,
    };
    match fields {
        Some((Some(w), Some(f), Some(c), Some(r))) => Some(Capabilities { web: w, files: f, code: c, reach_out: r }),
        _ => None,
    }
}

/// The capabilities field: defaults when absent.
pub open spec fn caps_field(v: Option<JsonV>) -> Option<Capabilities> {
    match v {
        None => Some(default_caps()),
        Some(c) => caps_from(c),
    }
}

/// The settings a `shell` section deserializes to.
pub open spec fn settings_from(v: JsonV) -> Option<ShellSettings> {
    let fields = match v {
        JsonV::Object(m) => Some((caps_field(member(m, "capabilities"@)), bool_field(member(m, "incognito"@), false))),
        JsonV::Array(a) => if a.len() <= 2 {
            Some((caps_field(elem(a, 0)), bool_field(elem(a, 1), false)))
        } else {
            None
        },
        _ => None,
    };
    match fields {
        Some((Some(c), Some(i))) => Some(ShellSettings { capabilities: c, incognito: i }),
        _ => None,
    }
}

/// The settings a config document holds: its `shell` section, or the
/// defaults when the section is absent or malformed (a bad section must not
/// wedge the shell).
pub open spec fn settings_in(doc: JsonV) -> ShellSettings {
    match doc.get("shell"@) {
        Some(section) => match settings_from(section) {
            Some(s) => s,
            None => default_settings(),
        },
        None => default_settings(),
    }
}

fn bool_field_exec(v: Option<&Json>, default: bool) -> (r: Option<bool>)
    ensures
        r == bool_field(
            match v {
                Some(x) => Some(x@),
                None => None,
            },
            default,
        ),
{
    match v {
        None => Some(default),
        Some(Json::Bool(b)) => Some(*b),
        Some(_) => None,
    }
}

fn elem_exec(a: &Vec<Json>, k: usize) -> (r: Option<&Json>)
    ensures
        match r {
            Some(x) => elem(Seq::new(a@.len(), |i: int| a@[i]@), k as int) == Some(x@),
            None => elem(Seq::new(a@.len(), |i: int| a@[i]@), k as int) is None,
        },
{
    if k < a.len() {
        Some(&a[k])
    } else {
        None
    }
}

fn member_exec<'a>(v: &'a Json, key: &str) -> (r: Option<&'a Json>)
    requires
        v@ is Object,
    ensures
        match r {
            Some(x) => member(v@->Object_0, key@) == Some(x@),
            None => member(v@->Object_0, key@) is None,
        },
{
    v.get(key)
}

fn caps_from_exec(v: &Json) -> (r: Option<Capabilities>)
    ensures
        r == caps_from(v@),
{
    let d = Capabilities::default();
    let (w, f, c, x) = match v {
        Json::Object(_) => (
            bool_field_exec(member_exec(v, "web"), d.web),
            bool_field_exec(member_exec(v, "files"), d.files),
            bool_field_exec(member_exec(v, "code"), d.code),
            bool_field_exec(member_exec(v, "reach_out"), d.reach_out),
        ),
        Json::Array(a) => {
            if a.len() > 4 {
                return None;
            }
            proof {
                assert(v@->Array_0 =~= Seq::new(a@.len(), |i: int| a@[i]@));
            }
            (
                bool_field_exec(elem_exec(a, 0), d.web),
                bool_field_exec(elem_exec(a, 1), d.files),
                bool_field_exec(elem_exec(a, 2), d.code),
                bool_field_exec(elem_exec(a, 3), d.reach_out),
            )
        },
        _ => return None,
    };
    match (w, f, c, x) {
        (Some(w), Some(f), Some(c), Some(x)) => Some(Capabilities { web: w, files: f, code: c, reach_out: x }),
        _ => None,
    }
}

fn caps_field_exec(v: Option<&Json>) -> (r: Option<Capabilities>)
    ensures
        r == caps_field(
            match v {
                Some(x) => Some(x@),
                None => None,
            },
        ),
{
    match v {
        None => Some(Capabilities::default()),
        Some(c) => caps_from_exec(c),
    }
}

fn settings_from_exec(v: &Json) -> (r: Option<ShellSettings>)
    ensures
        r == settings_from(v@),
{
    let (c, i) = match v {
        Json::Object(_) => (caps_field_exec(member_exec(v, "capabilities")), bool_field_exec(member_exec(v, "incognito"), false)),
        Json::Array(a) => {
            if a.len() > 2 {
                return None;
            }
            proof {
                assert(v@->Array_0 =~= Seq::new(a@.len(), |i: int| a@[i]@));
            }
            (caps_field_exec(elem_exec(a, 0)), bool_field_exec(elem_exec(a, 1), false))
        },
        _ => return None,
    };
    match (c, i) {
        (Some(c), Some(i)) => Some(ShellSettings { capabilities: c, incognito: i }),
        _ => None,
    }
}

/// The JSON the toggles are saved as.
pub open spec fn caps_json(c: Capabilities) -> JsonV {
    JsonV::Object(seq![
        ("web"@, JsonV::Bool(c.web)),
        ("files"@, JsonV::Bool(c.files)),
        ("code"@, JsonV::Bool(c.code)),
        ("reach_out"@, JsonV::Bool(c.reach_out)),
    ])
}

/// The JSON the settings are saved as.
pub open spec fn settings_json(s: ShellSettings) -> JsonV {
    JsonV::Object(seq![("capabilities"@, caps_json(s.capabilities)), ("incognito"@, JsonV::Bool(s.incognito))])
}

/// The value of an optional document.
pub open spec fn opt_doc(o: Option<Json>) -> Option<JsonV> {
    match o {
        Some(d) => Some(d@),
        None => None,
    }
}

impl ShellSettings {
    /// Load the `shell` section from the text of `config.json` (`None` when
    /// the file is absent): defaults when the file or the section is absent
    /// or the section is malformed; an error only when the file is not JSON.
    pub fn load(text: Option<&str>) -> (r: Result<ShellSettings, ConfigError>)
        ensures
            match text {
                None => r == Ok::<ShellSettings, ConfigError>(default_settings()),
                Some(t) => match parsed_json(t@) {
                    None => r == Err::<ShellSettings, ConfigError>(ConfigError::InvalidJson),
                    Some(doc) => r == Ok::<ShellSettings, ConfigError>(settings_in(doc)),
                },
            },
    {
        let t = match text {
            None => return Ok(ShellSettings::default()),
            Some(t) => t,
        };
        let doc = match Json::parse(t) {
            None => return Err(ConfigError::InvalidJson),
            Some(d) => d,
        };
        match doc.get("shell") {
            Some(section) => match settings_from_exec(section) {
                Some(s) => Ok(s),
                None => Ok(ShellSettings::default()),
            },
            None => Ok(ShellSettings::default()),
        }
    }

    /// The settings as JSON.
    pub fn to_json(&self) -> (r: Json)
        ensures
            r@ == settings_json(*self),
    {
        let c = vec![
            (owned("web"), Json::Bool(self.capabilities.web)),
            (owned("files"), Json::Bool(self.capabilities.files)),
            (owned("code"), Json::Bool(self.capabilities.code)),
            (owned("reach_out"), Json::Bool(self.capabilities.reach_out)),
        ];
        assert(pairs_view(c@) =~= caps_json(self.capabilities)->Object_0);
        let m = vec![(owned("capabilities"), crate::event::object(c)), (owned("incognito"), Json::Bool(self.incognito))];
        assert(pairs_view(m@) =~= settings_json(*self)->Object_0);
        crate::event::object(m)
    }

    /// The config document to write back, given the current file's text
    /// (`None` when absent): its other sections kept as they are, `shell`
    /// replaced by these settings. A file that is not a JSON object is
    /// started afresh.
    pub fn save(&self, existing: Option<&str>) -> (r: Json)
        ensures
            r@ is Object,
            member(r@->Object_0, "shell"@) == Some(settings_json(*self)),
            forall|k: Seq<char>|
                k != "shell"@ ==> #[trigger] member(r@->Object_0, k) == match existing {
                    Some(t) => match parsed_json(t@) {
                        Some(JsonV::Object(m)) => member(m, k),
                        _ => None,
                    },
                    None => None,
                },
    {
        let doc = match existing {
            Some(t) => Json::parse(t),
            None => None,
        };
        let ghost prev: Option<JsonV> = opt_doc(doc);
        let mut members: Vec<(String, Json)> = match doc {
            Some(Json::Object(m)) => {
                assert(prev->0->Object_0 =~= pairs_view(m@));
                m
            },
            _ => Vec::new(),
        };
        let ghost before = pairs_view(members@);
        proof {
            if !(prev matches Some(JsonV::Object(_))) {
                assert(before.len() == 0);
                assert forall|k: Seq<char>| #[trigger] member(before, k) is None by {}
            }
        }
        set_member(&mut members, "shell", self.to_json());
        let r = Json::Object(members);
        assert(r@->Object_0 =~= pairs_view(members@));
        r
    }
}

// ---------------------------------------------------------------------------
// The updater's section.
// ---------------------------------------------------------------------------

/// The compiled-in `auto_update` defaults, in the order `serde_json`'s map
/// keeps them (sorted by key).
pub open spec fn default_auto_update() -> Seq<(Seq<char>, JsonV)> {
    seq![
        ("auto_apply"@, JsonV::Str("patch"@)),
        ("channel"@, JsonV::Str("stable"@)),
        ("check_interval_hours"@, JsonV::Float("6.0"@)),
        ("enabled"@, JsonV::Bool(true)),
    ]
}

/// The compiled-in config document: `{auto_update: {…defaults}}`.
pub open spec fn default_doc() -> JsonV {
    JsonV::Object(seq![("auto_update"@, JsonV::Object(default_auto_update()))])
}

fn default_auto_update_members() -> (r: Vec<(String, Json)>)
    ensures
        pairs_view(r@) == default_auto_update(),
{
    let r = vec![
        (owned("auto_apply"), Json::text("patch")),
        (owned("channel"), Json::text("stable")),
        (owned("check_interval_hours"), Json::Float(owned("6.0"))),
        (owned("enabled"), Json::Bool(true)),
    ];
    assert(pairs_view(r@) =~= default_auto_update());
    r
}

/// The compiled-in config document.
pub fn default_config_value() -> (r: Json)
    ensures
        r@ == default_doc(),
{
    let au = crate::event::object(default_auto_update_members());
    let m = vec![(owned("auto_update"), au)];
    assert(pairs_view(m@) =~= default_doc()->Object_0);
    crate::event::object(m)
}

/// `m` with each default member it lacks added at the end, in order.
pub open spec fn fill_defaults(m: Seq<(Seq<char>, JsonV)>, ds: Seq<(Seq<char>, JsonV)>) -> Seq<(Seq<char>, JsonV)>
    decreases ds.len(),
{
    if ds.len() == 0 {
        m
    } else {
        fill_defaults(if member(m, ds[0].0) is None { m.push(ds[0]) } else { m }, ds.drop_first())
    }
}

/// The `auto_update` section after merging: absent or not an object, the
/// defaults; an object, its own keys kept and the missing ones filled in.
pub open spec fn merged_auto_update(au: Option<JsonV>) -> JsonV {
    match au {
        Some(JsonV::Object(m)) => JsonV::Object(fill_defaults(m, default_auto_update())),
        _ => JsonV::Object(default_auto_update()),
    }
}

fn member_copy(m: &Vec<(String, Json)>, key: &str) -> (r: Option<Json>)
    ensures
        match r {
            Some(x) => member(pairs_view(m@), key@) == Some(x@),
            None => member(pairs_view(m@), key@) is None,
        },
{
    let ghost pv = pairs_view(m@);
    let mut i: usize = 0;
    assert(pv.subrange(0, pv.len() as int) =~= pv);
    while i < m.len()
        invariant
            i <= m@.len(),
            pv == pairs_view(m@),
            member(pv, key@) == member(pv.subrange(i as int, pv.len() as int), key@),
        decreases m@.len() - i,
    {
        let ghost rest = pv.subrange(i as int, pv.len() as int);
        assert(rest.drop_first() =~= pv.subrange(i + 1, pv.len() as int));
        if crate::text::eq_str(m[i].0.as_str(), key) {
            return Some(m[i].1.duplicate());
        }
        i = i + 1;
    }
    None
}

/// `r` is `v` with its `auto_update` defaults merged in.
pub open spec fn merged_doc(v: JsonV, r: JsonV) -> bool {
    &&& !(v is Object) ==> r == default_doc()
    &&& v is Object ==> r is Object && member(r->Object_0, "auto_update"@) == Some(
        merged_auto_update(member(v->Object_0, "auto_update"@)),
    ) && forall|k: Seq<char>| k != "auto_update"@ ==> #[trigger] member(r->Object_0, k) == member(v->Object_0, k)
}

/// Fill in any missing `auto_update` keys from the defaults without
/// clobbering values already set, so the rest of the updater can read every
/// key; a document that is not an object becomes the defaults.
pub fn merge_defaults(v: Json) -> (r: Json)
    ensures
        merged_doc(v@, r@),
{
    let ghost vv = v@;
    let mut members = match v {
        Json::Object(m) => m,
        _ => return default_config_value(),
    };
    assert(vv->Object_0 =~= pairs_view(members@));
    let au = member_copy(&members, "auto_update");
    let ghost auv: Option<JsonV> = opt_doc(au);
    let merged = match au {
        Some(Json::Object(mut am)) => {
            assert(auv->0->Object_0 =~= pairs_view(am@));
            let defaults = default_auto_update_members();
            let ghost ds = pairs_view(defaults@);
            let mut i: usize = 0;
            let ghost start = pairs_view(am@);
            assert(ds.subrange(0, ds.len() as int) =~= ds);
            while i < defaults.len()
                invariant
                    i <= defaults@.len(),
                    ds == pairs_view(defaults@),
                    ds == default_auto_update(),
                    fill_defaults(start, ds) == fill_defaults(pairs_view(am@), ds.subrange(i as int, ds.len() as int)),
                decreases defaults@.len() - i,
            {
                let ghost cur = pairs_view(am@);
                let ghost rest = ds.subrange(i as int, ds.len() as int);
                assert(rest.drop_first() =~= ds.subrange(i + 1, ds.len() as int));
                assert(rest[0] == ds[i as int]);
                let present = member_copy(&am, defaults[i].0.as_str());
                if present.is_none() {
                    am.push((defaults[i].0.clone(), defaults[i].1.duplicate()));
                    assert(pairs_view(am@) =~= cur.push(ds[i as int]));
                }
                i = i + 1;
            }
            assert(ds.subrange(ds.len() as int, ds.len() as int) =~= Seq::<(Seq<char>, JsonV)>::empty());
            let r = Json::Object(am);
            assert(r@->Object_0 =~= pairs_view(am@));
            assert(ds.subrange(0, ds.len() as int) =~= ds);
            r
        },
        _ => crate::event::object(default_auto_update_members()),
    };
    let ghost mv = merged@;
    assert(mv == merged_auto_update(auv));
    set_member(&mut members, "auto_update", merged);
    let r = Json::Object(members);
    assert(r@->Object_0 =~= pairs_view(members@));
    r
}

/// Load the config document from the text of `config.json` (`None` when
/// absent): the defaults when absent, an error when not JSON, else the
/// document with its `auto_update` defaults merged in.
pub fn load_config_value(text: Option<&str>) -> (r: Result<Json, ConfigError>)
    ensures
        match text {
            None => r matches Ok(d) && d@ == default_doc(),
            Some(t) => match parsed_json(t@) {
                None => r matches Err(ConfigError::InvalidJson),
                Some(v) => r matches Ok(d) && merged_doc(v, d@),
            },
        },
{
    match text {
        None => Ok(default_config_value()),
        Some(t) => match Json::parse(t) {
            None => Err(ConfigError::InvalidJson),
            Some(v) => Ok(merge_defaults(v)),
        },
    }
}

/// `d` is the document with members `m` whose `auto_update` members `au`
/// had `enabled` set: every other member as it was.
pub open spec fn enabled_doc(m: Seq<(Seq<char>, JsonV)>, au: Seq<(Seq<char>, JsonV)>, enabled: bool, d: JsonV) -> bool {
    match d {
        JsonV::Object(dm) => (forall|k: Seq<char>|
            k != "auto_update"@ ==> #[trigger] member(dm, k) == member(m, k)) && match member(dm, "auto_update"@) {
            Some(JsonV::Object(na)) => forall|k: Seq<char>|
                #[trigger] member(na, k) == if k == "enabled"@ {
                    Some(JsonV::Bool(enabled))
                } else {
                    member(au, k)
                },
            _ => false,
        },
        _ => false,
    }
}

/// Switch `auto_update.enabled` in a config document, leaving everything
/// else as it is; an error when the document has no `auto_update` object.
pub fn set_auto_update_enabled(cfg: Json, enabled: bool) -> (r: Result<Json, String>)
    ensures
        match cfg@ {
            JsonV::Object(m) => match member(m, "auto_update"@) {
                Some(JsonV::Object(au)) => (r matches Ok(d) && enabled_doc(m, au, enabled, d@)),
                _ => (r matches Err(e) && e@ == "config missing auto_update"@),
            },
            _ => (r matches Err(e) && e@ == "config missing auto_update"@),
        },
{
    let ghost cv = cfg@;
    let au = match cfg.get("auto_update") {
        Some(a) => a.duplicate(),
        None => return Err(owned("config missing auto_update")),
    };
    let ghost av = au@;
    let mut inner = match au {
        Json::Object(inner) => inner,
        _ => return Err(owned("config missing auto_update")),
    };
    let mut members = match cfg {
        Json::Object(members) => members,
        _ => return Err(owned("config missing auto_update")),
    };
    proof {
        assert(pairs_view(members@) =~= cv->Object_0);
        assert(pairs_view(inner@) =~= av->Object_0);
    }
    set_member(&mut inner, "enabled", Json::Bool(enabled));
    let na = Json::Object(inner);
    proof {
        assert(pairs_view(inner@) =~= na@->Object_0);
    }
    set_member(&mut members, "auto_update", na);
    let d = Json::Object(members);
    proof {
        assert(pairs_view(members@) =~= d@->Object_0);
    }
    Ok(d)
}

/// Saving then loading gives the settings back: whatever document the
/// settings were saved into, the document written holds exactly them, and
/// reading its `shell` section yields them again.
pub proof fn law_settings_round_trip(s: ShellSettings, saved: JsonV)
    requires
        saved is Object,
        member(saved->Object_0, "shell"@) == Some(settings_json(s)),
    ensures
        settings_in(saved) == s,
{
    reveal_strlit("capabilities");
    reveal_strlit("incognito");
    reveal_strlit("web");
    reveal_strlit("files");
    reveal_strlit("code");
    reveal_strlit("reach_out");
    reveal_with_fuel(member, 5);
    let m = settings_json(s)->Object_0;
    assert(member(m, "capabilities"@) == Some(caps_json(s.capabilities)));
    assert("capabilities"@ != "incognito"@) by {
        assert("capabilities"@.len() != "incognito"@.len());
    }
    assert(m.drop_first() =~= seq![("incognito"@, JsonV::Bool(s.incognito))]);
    assert(member(m, "incognito"@) == Some(JsonV::Bool(s.incognito)));
    let c = caps_json(s.capabilities)->Object_0;
    assert(member(c, "web"@) == Some(JsonV::Bool(s.capabilities.web)));
    assert("web"@.len() != "files"@.len() && "web"@.len() != "code"@.len() && "web"@.len() != "reach_out"@.len());
    assert("files"@.len() != "code"@.len() && "files"@.len() != "reach_out"@.len());
    assert("code"@.len() != "reach_out"@.len());
    assert(c.drop_first() =~= seq![
        ("files"@, JsonV::Bool(s.capabilities.files)),
        ("code"@, JsonV::Bool(s.capabilities.code)),
        ("reach_out"@, JsonV::Bool(s.capabilities.reach_out)),
    ]);
    assert(c.drop_first().drop_first() =~= seq![
        ("code"@, JsonV::Bool(s.capabilities.code)),
        ("reach_out"@, JsonV::Bool(s.capabilities.reach_out)),
    ]);
    assert(c.drop_first().drop_first().drop_first() =~= seq![("reach_out"@, JsonV::Bool(s.capabilities.reach_out))]);
    assert(member(c, "files"@) == Some(JsonV::Bool(s.capabilities.files)));
    assert(member(c, "code"@) == Some(JsonV::Bool(s.capabilities.code)));
    assert(member(c, "reach_out"@) == Some(JsonV::Bool(s.capabilities.reach_out)));
}

/// Merging defaults never clobbers what the user set, and leaves every
/// default key present: a key the section already has keeps its value, and
/// each default's key has a value afterwards.
pub proof fn law_merge_fills_without_clobbering(m: Seq<(Seq<char>, JsonV)>, ds: Seq<(Seq<char>, JsonV)>)
    ensures
        forall|k: Seq<char>| member(m, k) is Some ==> #[trigger] member(fill_defaults(m, ds), k) == member(m, k),
        forall|i: int| 0 <= i < ds.len() ==> member(fill_defaults(m, ds), #[trigger] ds[i].0) is Some,
    decreases ds.len(),
{
    if ds.len() > 0 {
        let m2 = if member(m, ds[0].0) is None {
            m.push(ds[0])
        } else {
            m
        };
        law_merge_fills_without_clobbering(m2, ds.drop_first());
        assert(fill_defaults(m, ds) == fill_defaults(m2, ds.drop_first()));
        assert forall|k: Seq<char>| member(m, k) is Some implies #[trigger] member(fill_defaults(m, ds), k) == member(m, k) by {
            crate::json::lemma_member_push(m, ds[0], k);
        }
        assert forall|i: int| 0 <= i < ds.len() implies member(fill_defaults(m, ds), #[trigger] ds[i].0) is Some by {
            if i == 0 {
                crate::json::lemma_member_push(m, ds[0], ds[0].0);
            } else {
                assert(ds[i] == ds.drop_first()[i - 1]);
            }
        }
    }
}

} // verus!
