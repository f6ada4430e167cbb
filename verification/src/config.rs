//! Layered configuration and the field-level, right-biased merge.
//!
//! Configuration documents are loaded from up to three sources (system-wide,
//! user-wide, project-local, in ascending precedence) by the surrounding
//! application and handed to [`Config::merge`] as plain values, earliest
//! first.  The merge is field-level and right-biased: a later layer
//! overwrites exactly the fields it sets and never clears a field it omits.
//! Profile entries are the one exception: a later layer replaces a colliding
//! profile wholesale rather than merging its fields.

use vstd::prelude::*;

verus! {

/// Default OCR parameters of one configuration layer.
pub struct DefaultConfig {
    pub languages: Option<Vec<String>>,
    pub gpu: Option<bool>,
    pub output: Option<String>,
    pub detail: Option<i32>,
}

/// Engine-server settings of one configuration layer.
pub struct ServerConfig {
    pub enabled: Option<bool>,
    pub port: Option<u16>,
    pub host: Option<String>,
    pub auto_start: Option<bool>,
}

/// Batch-processing settings of one configuration layer.
pub struct BatchConfig {
    pub output_dir: Option<String>,
    pub continue_on_error: Option<bool>,
}

/// A named bundle of parameter overrides, selectable by name.
pub struct ProfileConfig {
    pub languages: Option<Vec<String>>,
    pub gpu: Option<bool>,
    pub output: Option<String>,
    pub detail: Option<i32>,
}

/// One named profile.  The profile table is kept as an association list with
/// pairwise-distinct names; its mathematical model is a `Map` from the name's
/// characters to the profile.
pub struct ProfileEntry {
    pub name: String,
    pub profile: ProfileConfig,
}

/// One configuration document: each section is present or absent as a whole.
pub struct Config {
    pub default: Option<DefaultConfig>,
    pub server: Option<ServerConfig>,
    pub batch: Option<BatchConfig>,
    pub profiles: Option<Vec<ProfileEntry>>,
}

/// The mathematical model of a configuration: the profile table is a map
/// keyed by the profile name's characters.
pub struct ConfigV {
    pub default: Option<DefaultConfig>,
    pub server: Option<ServerConfig>,
    pub batch: Option<BatchConfig>,
    pub profiles: Option<Map<Seq<char>, ProfileConfig>>,
}

/// The map described by an association list of profiles; a later entry with
/// the same name wins.
pub open spec fn amap(es: Seq<ProfileEntry>) -> Map<Seq<char>, ProfileConfig>
    decreases es.len(),
{
    if es.len() == 0 {
        Map::empty()
    } else {
        amap(es.drop_last()).insert(es.last().name@, es.last().profile)
    }
}

/// Pairwise-distinct profile names.
pub open spec fn pwf(es: Seq<ProfileEntry>) -> bool {
    forall|i: int, j: int|
        #![trigger es[i], es[j]]
        0 <= i < j < es.len() ==> es[i].name@ != es[j].name@
}

impl View for Config {
    type V = ConfigV;

    open spec fn view(&self) -> ConfigV {
        ConfigV {
            default: self.default,
            server: self.server,
            batch: self.batch,
            profiles: match self.profiles {
                Some(es) => Some(amap(es@)),
                None => None,
            },
        }
    }
}

impl Config {
    /// The profile table, if present, has pairwise-distinct names.
    pub open spec fn wf(self) -> bool {
        match self.profiles {
            Some(es) => pwf(es@),
            None => true,
        }
    }
}

/// The configuration with every section absent.
pub open spec fn empty_config_v() -> ConfigV {
    ConfigV { default: None, server: None, batch: None, profiles: None }
}

impl Default for Config {
    /// The empty configuration: every section absent.
    fn default() -> (r: Self)
        ensures
            r@ == empty_config_v(),
            r.wf(),
    {
        Config { default: None, server: None, batch: None, profiles: None }
    }
}

/// Field-level merge of the default section: each field the incoming layer
/// sets overwrites the accumulated value; omitted fields are untouched.
pub open spec fn merge_default_spec(base: Option<DefaultConfig>, inc: DefaultConfig) -> DefaultConfig {
    let b = match base {
        Some(b) => b,
        None => DefaultConfig { languages: None, gpu: None, output: None, detail: None },
    };
    DefaultConfig {
        languages: if inc.languages is Some {
            inc.languages
        } else {
            b.languages
        },
        gpu: if inc.gpu is Some {
            inc.gpu
        } else {
            b.gpu
        },
        output: if inc.output is Some {
            inc.output
        } else {
            b.output
        },
        detail: if inc.detail is Some {
            inc.detail
        } else {
            b.detail
        },
    }
}

/// Field-level merge of the server section.
pub open spec fn merge_server_spec(base: Option<ServerConfig>, inc: ServerConfig) -> ServerConfig {
    let b = match base {
        Some(b) => b,
        None => ServerConfig { enabled: None, port: None, host: None, auto_start: None },
    };
    ServerConfig {
        enabled: if inc.enabled is Some {
            inc.enabled
        } else {
            b.enabled
        },
        port: if inc.port is Some {
            inc.port
        } else {
            b.port
        },
        host: if inc.host is Some {
            inc.host
        } else {
            b.host
        },
        auto_start: if inc.auto_start is Some {
            inc.auto_start
        } else {
            b.auto_start
        },
    }
}

/// Field-level merge of the batch section.
pub open spec fn merge_batch_spec(base: Option<BatchConfig>, inc: BatchConfig) -> BatchConfig {
    let b = match base {
        Some(b) => b,
        None => BatchConfig { output_dir: None, continue_on_error: None },
    };
    BatchConfig {
        output_dir: if inc.output_dir is Some {
            inc.output_dir
        } else {
            b.output_dir
        },
        continue_on_error: if inc.continue_on_error is Some {
            inc.continue_on_error
        } else {
            b.continue_on_error
        },
    }
}

/// One step of the fold: merge the incoming layer `c` over the accumulated
/// configuration `acc`.  Sections absent in `c` are untouched; the profile
/// table is merged by key, a colliding key replaced wholesale.
pub open spec fn merge_one(acc: ConfigV, c: ConfigV) -> ConfigV {
    ConfigV {
        default: match c.default {
            Some(d) => Some(merge_default_spec(acc.default, d)),
            None => acc.default,
        },
        server: match c.server {
            Some(s) => Some(merge_server_spec(acc.server, s)),
            None => acc.server,
        },
        batch: match c.batch {
            Some(b) => Some(merge_batch_spec(acc.batch, b)),
            None => acc.batch,
        },
        profiles: match c.profiles {
            Some(m) => Some(
                (match acc.profiles {
                    Some(a) => a,
                    None => Map::empty(),
                }).union_prefer_right(m),
            ),
            None => acc.profiles,
        },
    }
}

/// The merged configuration of a sequence of layers, earliest first: a left
/// fold of `merge_one` starting from the empty configuration.
pub open spec fn merge_spec(cs: Seq<ConfigV>) -> ConfigV
    decreases cs.len(),
{
    if cs.len() == 0 {
        empty_config_v()
    } else {
        merge_one(merge_spec(cs.drop_last()), cs.last())
    }
}

/// The models of a sequence of configuration documents.
pub open spec fn config_views(cs: Seq<Config>) -> Seq<ConfigV> {
    cs.map_values(|c: Config| c@)
}

proof fn lemma_amap_update(es: Seq<ProfileEntry>, j: int, e: ProfileEntry)
    requires
        pwf(es),
        0 <= j < es.len(),
        es[j].name@ == e.name@,
    ensures
        amap(es.update(j, e)) == amap(es).insert(e.name@, e.profile),
        pwf(es.update(j, e)),
    decreases es.len(),
{
    let u = es.update(j, e);
    if j == es.len() - 1 {
        assert(u.drop_last() =~= es.drop_last());
        assert(amap(u) =~= amap(es).insert(e.name@, e.profile));
    } else {
        assert(es.drop_last().update(j, e) =~= u.drop_last());
        lemma_amap_update(es.drop_last(), j, e);
        assert(es.last().name@ != e.name@);
        assert(u.last() == es.last());
        assert(amap(u) == amap(u.drop_last()).insert(es.last().name@, es.last().profile));
        assert(amap(u) =~= amap(es).insert(e.name@, e.profile));
    }
    assert forall|i1: int, j1: int|
        #![trigger u[i1], u[j1]]
        0 <= i1 < j1 < u.len() implies u[i1].name@ != u[j1].name@ by {
        assert(es[i1].name@ != es[j1].name@);
    }
}

proof fn lemma_amap_push_fresh(es: Seq<ProfileEntry>, e: ProfileEntry)
    requires
        pwf(es),
        forall|i: int| 0 <= i < es.len() ==> (#[trigger] es[i]).name@ != e.name@,
    ensures
        amap(es.push(e)) == amap(es).insert(e.name@, e.profile),
        pwf(es.push(e)),
{
    let p = es.push(e);
    assert(p.drop_last() =~= es);
    assert(p.last() == e);
    assert forall|i1: int, j1: int|
        #![trigger p[i1], p[j1]]
        0 <= i1 < j1 < p.len() implies p[i1].name@ != p[j1].name@ by {
        if j1 < es.len() {
            assert(es[i1].name@ != es[j1].name@);
        } else {
            assert(es[i1].name@ != e.name@);
        }
    }
}

impl Config {
    /// Replaces the entry named like `e`, or appends `e` when no entry is.
    #[verifier::loop_isolation(false)]
    fn upsert(es: Vec<ProfileEntry>, e: ProfileEntry) -> (r: Vec<ProfileEntry>)
        requires
            pwf(es@),
        ensures
            pwf(r@),
            amap(r@) == amap(es@).insert(e.name@, e.profile),
    {
        let ghost es0 = es@;
        let mut v = es;
        let mut i: usize = 0;
        while i < v.len()
            invariant
                v@ == es0,
                pwf(es0),
                i <= es0.len(),
                forall|k: int| 0 <= k < i ==> (#[trigger] es0[k]).name@ != e.name@,
            decreases es0.len() - i,
        {
            let found = v[i].name == e.name;
            if found {
                proof {
                    assert(es0[i as int].name@ == e.name@);
                    lemma_amap_update(es0, i as int, e);
                }
                v[i] = e;
                proof {
                    assert(v@ == es0.update(i as int, e));
                    assert(amap(v@) == amap(es0).insert(e.name@, e.profile));
                }
                return v;
            }
            i += 1;
        }
        proof {
            lemma_amap_push_fresh(es0, e);
        }
        v.push(e);
        v
    }

    /// Merges an incoming profile table over an accumulated one: each
    /// incoming entry replaces a same-named entry wholesale, or is appended.
    #[verifier::loop_isolation(false)]
    pub fn merge_profiles(base: Vec<ProfileEntry>, inc: Vec<ProfileEntry>) -> (r: Vec<ProfileEntry>)
        requires
            pwf(base@),
        ensures
            pwf(r@),
            amap(r@) == amap(base@).union_prefer_right(amap(inc@)),
    {
        let ghost base0 = base@;
        let ghost inc0 = inc@;
        let mut acc = base;
        let mut inc = inc;
        let ghost mut k: int = 0;
        proof {
            assert(inc0.skip(0) =~= inc0);
            assert(inc0.take(0) =~= Seq::<ProfileEntry>::empty());
            assert(amap(base0).union_prefer_right(amap(inc0.take(0))) =~= amap(base0));
        }
        while inc.len() > 0
            invariant
                pwf(acc@),
                0 <= k <= inc0.len(),
                inc@ == inc0.skip(k),
                inc@.len() == inc0.len() - k,
                amap(acc@) == amap(base0).union_prefer_right(amap(inc0.take(k))),
            decreases inc@.len(),
        {
            let ghost before = inc@;
            let e = inc.remove(0);
            proof {
                assert(before[0] == inc0.skip(k)[0]);
                assert(inc0.skip(k)[0] == inc0[k]);
                assert(e == inc0[k]);
                assert(inc@ =~= inc0.skip(k + 1));
            }
            acc = Self::upsert(acc, e);
            proof {
                assert(inc0.take(k + 1).drop_last() =~= inc0.take(k));
                assert(inc0.take(k + 1)[k] == inc0[k]);
                assert(inc0.take(k + 1).last() == inc0[k]);
                assert(amap(inc0.take(k + 1)) == amap(inc0.take(k)).insert(
                    inc0[k].name@,
                    inc0[k].profile,
                ));
                assert(amap(base0).union_prefer_right(amap(inc0.take(k + 1)))
                    =~= amap(base0).union_prefer_right(amap(inc0.take(k))).insert(
                    inc0[k].name@,
                    inc0[k].profile,
                ));
                k = k + 1;
            }
        }
        proof {
            assert(inc0.take(inc0.len() as int) =~= inc0);
        }
        acc
    }

    /// Field-level merge of one incoming default section over the
    /// accumulated one.
    pub fn merge_default(base: Option<DefaultConfig>, inc: DefaultConfig) -> (r: DefaultConfig)
        ensures
            r == merge_default_spec(base, inc),
    {
        let mut result = match base {
            Some(b) => b,
            None => DefaultConfig { languages: None, gpu: None, output: None, detail: None },
        };
        if let Some(langs) = inc.languages {
            result.languages = Some(langs);
        }
        if let Some(gpu) = inc.gpu {
            result.gpu = Some(gpu);
        }
        if let Some(output) = inc.output {
            result.output = Some(output);
        }
        if let Some(detail) = inc.detail {
            result.detail = Some(detail);
        }
        result
    }

    /// Field-level merge of one incoming server section over the accumulated
    /// one.
    pub fn merge_server(base: Option<ServerConfig>, inc: ServerConfig) -> (r: ServerConfig)
        ensures
            r == merge_server_spec(base, inc),
    {
        let mut result = match base {
            Some(b) => b,
            None => ServerConfig { enabled: None, port: None, host: None, auto_start: None },
        };
        if let Some(enabled) = inc.enabled {
            result.enabled = Some(enabled);
        }
        if let Some(port) = inc.port {
            result.port = Some(port);
        }
        if let Some(host) = inc.host {
            result.host = Some(host);
        }
        if let Some(auto_start) = inc.auto_start {
            result.auto_start = Some(auto_start);
        }
        result
    }

    /// Field-level merge of one incoming batch section over the accumulated
    /// one.
    pub fn merge_batch(base: Option<BatchConfig>, inc: BatchConfig) -> (r: BatchConfig)
        ensures
            r == merge_batch_spec(base, inc),
    {
        let mut result = match base {
            Some(b) => b,
            None => BatchConfig { output_dir: None, continue_on_error: None },
        };
        if let Some(output_dir) = inc.output_dir {
            result.output_dir = Some(output_dir);
        }
        if let Some(continue_on_error) = inc.continue_on_error {
            result.continue_on_error = Some(continue_on_error);
        }
        result
    }

    /// Merges one incoming document over the accumulated configuration.
    fn merge_one_exec(acc: Config, c: Config) -> (r: Config)
        requires
            acc.wf(),
        ensures
            r@ == merge_one(acc@, c@),
            r.wf(),
    {
        let ghost accv = acc@;
        let ghost cv = c@;
        let Config { default: a_default, server: a_server, batch: a_batch, profiles: a_profiles } =
            acc;
        let Config { default: c_default, server: c_server, batch: c_batch, profiles: c_profiles } =
            c;
        let default = match c_default {
            Some(d) => Some(Self::merge_default(a_default, d)),
            None => a_default,
        };
        let server = match c_server {
            Some(s) => Some(Self::merge_server(a_server, s)),
            None => a_server,
        };
        let batch = match c_batch {
            Some(b) => Some(Self::merge_batch(a_batch, b)),
            None => a_batch,
        };
        let profiles = match c_profiles {
            Some(ps) => {
                let base = match a_profiles {
                    Some(a) => a,
                    None => Vec::new(),
                };
                proof {
                    if accv.profiles is None {
                        assert(amap(Seq::<ProfileEntry>::empty()) =~= Map::<
                            Seq<char>,
                            ProfileConfig,
                        >::empty());
                    }
                }
                Some(Self::merge_profiles(base, ps))
            },
            None => a_profiles,
        };
        Config { default, server, batch, profiles }
    }

    /// Merges the given layers, earliest first: the result is the left fold
    /// of the field-level merge over the empty configuration, so a later
    /// layer overrides exactly what it sets.
    #[verifier::loop_isolation(false)]
    pub fn merge(configs: Vec<Config>) -> (r: Config)
        ensures
            r@ == merge_spec(config_views(configs@)),
            r.wf(),
    {
        let ghost all = configs@;
        let mut remaining = configs;
        let mut result = Config::default();
        let ghost mut k: int = 0;
        proof {
            assert(all.skip(0) =~= all);
            assert(config_views(all.take(0)) =~= Seq::<ConfigV>::empty());
        }
        while remaining.len() > 0
            invariant
                0 <= k <= all.len(),
                remaining@ == all.skip(k),
                remaining@.len() == all.len() - k,
                result@ == merge_spec(config_views(all.take(k))),
                result.wf(),
            decreases remaining@.len(),
        {
            let ghost before = remaining@;
            let c = remaining.remove(0);
            proof {
                assert(before[0] == all.skip(k)[0]);
                assert(all.skip(k)[0] == all[k]);
                assert(c == all[k]);
                assert(remaining@ =~= all.skip(k + 1));
            }
            result = Self::merge_one_exec(result, c);
            proof {
                assert(config_views(all.take(k + 1)).drop_last() =~= config_views(all.take(k)));
                assert(config_views(all.take(k + 1))[k] == all[k]@);
                assert(config_views(all.take(k + 1)).last() == all[k]@);
                k = k + 1;
            }
        }
        proof {
            assert(all.take(all.len() as int) =~= all);
        }
        result
    }
}

} // verus!

verus! {

/// What the layer sets for the default languages, if anything.
pub open spec fn set_languages(c: ConfigV) -> Option<Vec<String>> {
    match c.default {
        Some(d) => d.languages,
        None => None,
    }
}

/// What the layer sets for the gpu flag, if anything.
pub open spec fn set_gpu(c: ConfigV) -> Option<bool> {
    match c.default {
        Some(d) => d.gpu,
        None => None,
    }
}

/// What the layer sets for the output format, if anything.
pub open spec fn set_output(c: ConfigV) -> Option<String> {
    match c.default {
        Some(d) => d.output,
        None => None,
    }
}

/// What the layer sets for the detail level, if anything.
pub open spec fn set_detail(c: ConfigV) -> Option<i32> {
    match c.default {
        Some(d) => d.detail,
        None => None,
    }
}

/// What the layer sets for the server-enabled flag, if anything.
pub open spec fn set_enabled(c: ConfigV) -> Option<bool> {
    match c.server {
        Some(s) => s.enabled,
        None => None,
    }
}

/// What the layer sets for the server port, if anything.
pub open spec fn set_port(c: ConfigV) -> Option<u16> {
    match c.server {
        Some(s) => s.port,
        None => None,
    }
}

/// What the layer sets for the server host, if anything.
pub open spec fn set_host(c: ConfigV) -> Option<String> {
    match c.server {
        Some(s) => s.host,
        None => None,
    }
}

/// What the layer sets for the auto-start flag, if anything.
pub open spec fn set_auto_start(c: ConfigV) -> Option<bool> {
    match c.server {
        Some(s) => s.auto_start,
        None => None,
    }
}

/// What the layer sets for the batch output directory, if anything.
pub open spec fn set_output_dir(c: ConfigV) -> Option<String> {
    match c.batch {
        Some(b) => b.output_dir,
        None => None,
    }
}

/// What the layer sets for the continue-on-error flag, if anything.
pub open spec fn set_continue_on_error(c: ConfigV) -> Option<bool> {
    match c.batch {
        Some(b) => b.continue_on_error,
        None => None,
    }
}

/// What the layer sets for the profile named `k`, if anything.
pub open spec fn profile_getter(k: Seq<char>) -> spec_fn(ConfigV) -> Option<ProfileConfig> {
    |c: ConfigV|
        match c.profiles {
            Some(m) => if m.contains_key(k) {
                Some(m[k])
            } else {
                None
            },
            None => None,
        }
}

/// The value set by the last layer (in precedence order) that sets the
/// field read by `get`, or `None` when no layer sets it.
pub open spec fn last_set<A>(cs: Seq<ConfigV>, get: spec_fn(ConfigV) -> Option<A>) -> Option<A>
    decreases cs.len(),
{
    if cs.len() == 0 {
        None
    } else if get(cs.last()) is Some {
        get(cs.last())
    } else {
        last_set(cs.drop_last(), get)
    }
}

proof fn lemma_last_setter_wins<A>(cs: Seq<ConfigV>, get: spec_fn(ConfigV) -> Option<A>)
    requires
        get(empty_config_v()) is None,
        forall|acc: ConfigV, c: ConfigV| #[trigger] get(merge_one(acc, c)) == (if get(c) is Some {
            get(c)
        } else {
            get(acc)
        }),
    ensures
        get(merge_spec(cs)) == last_set(cs, get),
    decreases cs.len(),
{
    if cs.len() > 0 {
        lemma_last_setter_wins(cs.drop_last(), get);
    }
}

/// Law: the merge is right-biased and field-level.  For every field, the
/// merged value equals the value set by the last layer that explicitly sets
/// it; a layer that omits a field never clears it.  Profiles are keyed: for
/// every name, the merged profile is the whole profile of the last layer
/// whose table contains that name.
pub proof fn lemma_merge_right_biased(cs: Seq<ConfigV>)
    ensures
        set_languages(merge_spec(cs)) == last_set(cs, |c: ConfigV| set_languages(c)),
        set_gpu(merge_spec(cs)) == last_set(cs, |c: ConfigV| set_gpu(c)),
        set_output(merge_spec(cs)) == last_set(cs, |c: ConfigV| set_output(c)),
        set_detail(merge_spec(cs)) == last_set(cs, |c: ConfigV| set_detail(c)),
        set_enabled(merge_spec(cs)) == last_set(cs, |c: ConfigV| set_enabled(c)),
        set_port(merge_spec(cs)) == last_set(cs, |c: ConfigV| set_port(c)),
        set_host(merge_spec(cs)) == last_set(cs, |c: ConfigV| set_host(c)),
        set_auto_start(merge_spec(cs)) == last_set(cs, |c: ConfigV| set_auto_start(c)),
        set_output_dir(merge_spec(cs)) == last_set(cs, |c: ConfigV| set_output_dir(c)),
        set_continue_on_error(merge_spec(cs)) == last_set(cs, |c: ConfigV| set_continue_on_error(c)),
        forall|k: Seq<char>| #[trigger] profile_getter(k)(merge_spec(cs)) == last_set(
            cs,
            profile_getter(k),
        ),
{
    lemma_last_setter_wins(cs, |c: ConfigV| set_languages(c));
    lemma_last_setter_wins(cs, |c: ConfigV| set_gpu(c));
    lemma_last_setter_wins(cs, |c: ConfigV| set_output(c));
    lemma_last_setter_wins(cs, |c: ConfigV| set_detail(c));
    lemma_last_setter_wins(cs, |c: ConfigV| set_enabled(c));
    lemma_last_setter_wins(cs, |c: ConfigV| set_port(c));
    lemma_last_setter_wins(cs, |c: ConfigV| set_host(c));
    lemma_last_setter_wins(cs, |c: ConfigV| set_auto_start(c));
    lemma_last_setter_wins(cs, |c: ConfigV| set_output_dir(c));
    lemma_last_setter_wins(cs, |c: ConfigV| set_continue_on_error(c));
    assert forall|k: Seq<char>| #[trigger] profile_getter(k)(merge_spec(cs)) == last_set(
        cs,
        profile_getter(k),
    ) by {
        lemma_last_setter_wins(cs, profile_getter(k));
    }
}

} // verus!

verus! {

/// The canonical default configuration text offered for bootstrapping.
pub open spec fn default_config_text() -> Seq<char> {
    r#"# RustOCR Configuration File
# Save as: ~/.config/rustocr/config.toml or ./rustocr.toml

[default]
languages = ["en"]
gpu = true
output = "json"
detail = 1

[server]
enabled = false
port = 8000
host = "127.0.0.1"
auto_start = false

[batch]
output_dir = "./results"
continue_on_error = true

# Example profiles
[profiles.chinese]
languages = ["ch_sim", "en"]
gpu = true
detail = 1

[profiles.multilang]
languages = ["en", "ch_sim", "ja", "ko"]
gpu = true
output = "detailed"
detail = 1

[profiles.fast]
languages = ["en"]
gpu = true
detail = 0
"#@
}

impl Config {
    /// The canonical configuration file template: pure text, no I/O.
    pub fn create_default() -> (r: String)
        ensures
            r@ == default_config_text(),
    {
        String::from_str(
            r#"# RustOCR Configuration File
# Save as: ~/.config/rustocr/config.toml or ./rustocr.toml

[default]
languages = ["en"]
gpu = true
output = "json"
detail = 1

[server]
enabled = false
port = 8000
host = "127.0.0.1"
auto_start = false

[batch]
output_dir = "./results"
continue_on_error = true

# Example profiles
[profiles.chinese]
languages = ["ch_sim", "en"]
gpu = true
detail = 1

[profiles.multilang]
languages = ["en", "ch_sim", "ja", "ko"]
gpu = true
output = "detailed"
detail = 1

[profiles.fast]
languages = ["en"]
gpu = true
detail = 0
"#,
        )
    }
}

} // verus!
