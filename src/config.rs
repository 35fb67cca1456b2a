//! Settings and the model registry: which models exist, their templates and
//! defaults, and the generation parameters a request ends up with. Reading
//! and writing the files that hold them is left to the caller.
use vstd::prelude::*;
use crate::dto::{new_uuid_string, or_default, GenerationParams, UUID_STRING_LEN};
use crate::error::Error;
use crate::template::{str_views, TemplateConfig};

verus! {

/// Where model files live under the home directory.
pub const MODELS_SUBDIR: &'static str = "/.local/share/chatsafe/models";

pub const DEFAULT_MODEL_ID: &'static str = "llama-3.2-3b-instruct-q4_k_m";

/// Default generation parameters of a model; temperature, `top_p` and repeat
/// penalty in billionths.
#[derive(Debug, Clone, Copy)]
pub struct ModelDefaults {
    pub temperature: i64,
    pub top_p: i64,
    pub top_k: i32,
    pub repeat_penalty: i64,
    pub max_tokens: usize,
}

/// What a model needs of the machine; sizes in thousandths of a gigabyte.
#[derive(Debug, Clone, Copy)]
pub struct ModelResources {
    pub min_ram_milli_gb: u64,
    pub est_disk_milli_gb: u64,
    /// Layers on the GPU: -1 for all, 0 for none.
    pub gpu_layers: i32,
    pub threads: usize,
}

/// One model of the registry.
#[derive(Debug, Clone)]
pub struct ModelConfig {
    pub id: String,
    pub name: String,
    pub path: String,
    pub ctx_window: usize,
    pub template_id: String,
    pub stop_sequences: Vec<String>,
    pub eos_token: String,
    pub defaults: ModelDefaults,
    pub resources: ModelResources,
    pub default: bool,
}

/// The registry as a file holds it.
#[derive(Debug, Clone)]
pub struct ModelRegistryData {
    pub version: String,
    pub templates: Vec<TemplateConfig>,
    pub models: Vec<ModelConfig>,
}

/// The first model with id `id`.
pub open spec fn find_model(models: Seq<ModelConfig>, id: Seq<char>) -> Option<int>
    decreases models.len(),
{
    if models.len() == 0 {
        None
    } else {
        match find_model(models.drop_last(), id) {
            Some(i) => Some(i),
            None => if models.last().id@ == id {
                Some(models.len() - 1)
            } else {
                None
            },
        }
    }
}

/// The first template with id `id`.
pub open spec fn find_template(templates: Seq<TemplateConfig>, id: Seq<char>) -> Option<int>
    decreases templates.len(),
{
    if templates.len() == 0 {
        None
    } else {
        match find_template(templates.drop_last(), id) {
            Some(i) => Some(i),
            None => if templates.last().id@ == id {
                Some(templates.len() - 1)
            } else {
                None
            },
        }
    }
}

/// How many models claim to be the default.
pub open spec fn default_count(models: Seq<ModelConfig>) -> nat
    decreases models.len(),
{
    if models.len() == 0 {
        0
    } else {
        default_count(models.drop_last()) + if models.last().default {
            1nat
        } else {
            0nat
        }
    }
}

/// The models and templates that are available.
#[derive(Debug, Clone)]
pub struct ModelRegistry {
    pub models: Vec<ModelConfig>,
    pub templates: Vec<TemplateConfig>,
    pub model_dir: String,
    pub default_model_id: Option<String>,
}

/// `dir/path`, or `path` alone when it is absolute.
pub open spec fn join_path(dir: Seq<char>, path: Seq<char>) -> Seq<char> {
    if path.len() > 0 && path[0] == '/' {
        path
    } else if dir.len() > 0 && dir.last() == '/' {
        dir + path
    } else {
        dir + "/"@ + path
    }
}

fn find_model_index(models: &Vec<ModelConfig>, id: &str) -> (r: Option<usize>)
    ensures
        match r {
            Some(i) => find_model(models@, id@) == Some(i as int) && i < models@.len(),
            None => find_model(models@, id@) is None,
        },
{
    let mut i: usize = 0;
    let target = crate::text::chars_of(id);
    assert(models@.subrange(0, 0) =~= Seq::<ModelConfig>::empty());
    while i < models.len()
        invariant
            i <= models@.len(),
            target@ == id@,
            find_model(models@.subrange(0, i as int), id@) is None,
        decreases models.len() - i,
    {
        assert(models@.subrange(0, i + 1).drop_last() =~= models@.subrange(0, i as int));
        let candidate = crate::text::chars_of(models[i].id.as_str());
        if crate::text::seq_eq(&candidate, &target) {
            proof {
                lemma_find_model_prefix(models@, i as int + 1, id@);
            }
            return Some(i);
        }
        i = i + 1;
    }
    assert(models@.subrange(0, models@.len() as int) =~= models@);
    None
}

/// A match in a prefix is the match in the whole.
pub proof fn lemma_find_model_prefix(models: Seq<ModelConfig>, k: int, id: Seq<char>)
    requires
        0 <= k <= models.len(),
        find_model(models.subrange(0, k), id) is Some,
    ensures
        find_model(models, id) == find_model(models.subrange(0, k), id),
    decreases models.len() - k,
{
    if k < models.len() {
        assert(models.subrange(0, k + 1).drop_last() =~= models.subrange(0, k));
        lemma_find_model_prefix(models, k + 1, id);
    } else {
        assert(models.subrange(0, k) =~= models);
    }
}

pub proof fn lemma_find_template_prefix(templates: Seq<TemplateConfig>, k: int, id: Seq<char>)
    requires
        0 <= k <= templates.len(),
        find_template(templates.subrange(0, k), id) is Some,
    ensures
        find_template(templates, id) == find_template(templates.subrange(0, k), id),
    decreases templates.len() - k,
{
    if k < templates.len() {
        assert(templates.subrange(0, k + 1).drop_last() =~= templates.subrange(0, k));
        lemma_find_template_prefix(templates, k + 1, id);
    } else {
        assert(templates.subrange(0, k) =~= templates);
    }
}

impl ModelRegistry {
    /// The registry of `data`, with model files under `model_dir`. A model
    /// that claims to be the default is the default; with none, the first
    /// model is made the default. More than one claim is a configuration error.
    pub fn from_data(data: ModelRegistryData, model_dir: String) -> (r: Result<ModelRegistry, Error>)
        ensures
            r is Err <==> default_count(data.models@) > 1,
            r matches Err(e) ==> e is ConfigError,
            r matches Ok(reg) ==> {
                &&& reg.models@.len() == data.models@.len()
                &&& reg.templates@ == data.templates@
                &&& reg.model_dir@ == model_dir@
                &&& (data.models@.len() == 0 <==> reg.default_model_id is None)
                &&& forall|k: int| 0 <= k < reg.models@.len() ==> #[trigger] reg.models@[k].id@
                    == data.models@[k].id@
                &&& reg.default_model_id matches Some(d) ==> find_model(reg.models@, d@) is Some
            },
    {
        let ghost src = data.models@;
        let mut models: Vec<ModelConfig> = Vec::new();
        let mut default_id: Option<String> = None;
        let mut all = data.models;
        let mut rev: Vec<ModelConfig> = Vec::new();
        let n = all.len();
        while all.len() > 0
            invariant
                src == data.models@,
                rev@.len() <= src.len(),
                src.len() == n,
                all@ == src.subrange(0, src.len() - rev@.len()),
                forall|m: int| 0 <= m < rev@.len() ==> rev@[m] == src[src.len() - 1 - m],
            decreases all.len(),
        {
            let x = all.pop().unwrap();
            rev.push(x);
            assert(all@ =~= src.subrange(0, src.len() - rev@.len()));
        }
        let mut i: usize = 0;
        assert(src.subrange(0, 0) =~= Seq::<ModelConfig>::empty());
        while rev.len() > 0
            invariant
                src == data.models@,
                i + rev@.len() == src.len(),
                src.len() == n,
                forall|m: int| 0 <= m < rev@.len() ==> rev@[m] == src[src.len() - 1 - m],
                models@ == src.subrange(0, i as int),
                default_count(src.subrange(0, i as int)) <= 1,
                (default_count(src.subrange(0, i as int)) == 1) == (default_id is Some),
                default_id matches Some(d) ==> find_model(models@, d@) is Some,
            decreases rev.len(),
        {
            let x = rev.pop().unwrap();
            assert(x == src[i as int]);
            assert(src.subrange(0, i + 1).drop_last() =~= src.subrange(0, i as int));
            assert(src.subrange(0, i + 1).last() == x);
            if x.default {
                if default_id.is_some() {
                    proof {
                        assert(default_count(src.subrange(0, i + 1)) == default_count(
                            src.subrange(0, i as int),
                        ) + 1);
                        lemma_default_count_grows(src, i as int + 1);
                        assert(default_count(src) > 1);
                    }
                    return Err(Error::ConfigError(String::from_str("Multiple default models specified")));
                }
                default_id = Some(String::from_str(x.id.as_str()));
            }
            let ghost before = models@;
            models.push(x);
            assert(models@.drop_last() =~= before);
            proof {
                if default_id is Some {
                    let d = default_id->0;
                    if find_model(before, d@) is None {
                        assert(models@.last().id@ == d@);
                    }
                }
            }
            i = i + 1;
        }
        assert(src.subrange(0, src.len() as int) =~= src);
        if default_id.is_none() && models.len() > 0 {
            let mut first = models[0].clone_config();
            first.default = true;
            let id = String::from_str(first.id.as_str());
            let ghost before = models@;
            models.set(0, first);
            proof {
                assert(models@.subrange(0, 1).drop_last() =~= Seq::<ModelConfig>::empty());
                assert(find_model(Seq::<ModelConfig>::empty(), id@) is None);
                assert(find_model(models@.subrange(0, 1).drop_last(), id@) is None);
                assert(models@.subrange(0, 1).last() == models@[0]);
                assert(models@[0].id@ == id@);
                assert(find_model(models@.subrange(0, 1), id@) == Some(0int));
                lemma_find_model_prefix(models@, 1, id@);
            }
            default_id = Some(id);
        }
        Ok(ModelRegistry { models, templates: data.templates, model_dir, default_model_id: default_id })
    }

    /// The model with id `id`, or `ModelNotFound`.
    pub fn get_model(&self, id: &str) -> (r: Result<&ModelConfig, Error>)
        ensures
            match find_model(self.models@, id@) {
                Some(i) => r matches Ok(m) && *m == self.models@[i],
                None => r matches Err(e) && (e matches Error::ModelNotFound(s) && s@ == id@),
            },
    {
        match find_model_index(&self.models, id) {
            Some(i) => Ok(&self.models[i]),
            None => Err(Error::ModelNotFound(String::from_str(id))),
        }
    }

    /// The default model, or a configuration error when there is none.
    pub fn get_default_model(&self) -> (r: Result<&ModelConfig, Error>)
        ensures
            self.default_model_id is None ==> (r matches Err(e) && e is ConfigError),
            self.default_model_id matches Some(d) ==> match find_model(self.models@, d@) {
                Some(i) => r matches Ok(m) && *m == self.models@[i],
                None => r matches Err(e) && e is ModelNotFound,
            },
    {
        match &self.default_model_id {
            Some(d) => self.get_model(d.as_str()),
            None => Err(Error::ConfigError(String::from_str("No default model configured"))),
        }
    }

    /// The template with id `id`, or a configuration error.
    pub fn get_template(&self, id: &str) -> (r: Result<&TemplateConfig, Error>)
        ensures
            match find_template(self.templates@, id@) {
                Some(i) => r matches Ok(t) && *t == self.templates@[i],
                None => r matches Err(e) && e is ConfigError,
            },
    {
        let target = crate::text::chars_of(id);
        let mut i: usize = 0;
        assert(self.templates@.subrange(0, 0) =~= Seq::<TemplateConfig>::empty());
        while i < self.templates.len()
            invariant
                i <= self.templates@.len(),
                target@ == id@,
                find_template(self.templates@.subrange(0, i as int), id@) is None,
            decreases self.templates.len() - i,
        {
            assert(self.templates@.subrange(0, i + 1).drop_last() =~= self.templates@.subrange(
                0,
                i as int,
            ));
            let candidate = crate::text::chars_of(self.templates[i].id.as_str());
            if crate::text::seq_eq(&candidate, &target) {
                proof {
                    lemma_find_template_prefix(self.templates@, i as int + 1, id@);
                }
                return Ok(&self.templates[i]);
            }
            i = i + 1;
        }
        assert(self.templates@.subrange(0, self.templates@.len() as int) =~= self.templates@);
        Err(Error::ConfigError(String::from_str("Template not found: ").concat(id)))
    }

    /// The template of model `model_id`.
    pub fn get_model_template(&self, model_id: &str) -> (r: Result<&TemplateConfig, Error>)
        ensures
            find_model(self.models@, model_id@) is None ==> (r matches Err(e) && e is ModelNotFound),
            find_model(self.models@, model_id@) matches Some(i) ==> match find_template(
                self.templates@,
                self.models@[i].template_id@,
            ) {
                Some(j) => r matches Ok(t) && *t == self.templates@[j],
                None => r matches Err(e) && e is ConfigError,
            },
    {
        let model = self.get_model(model_id)?;
        self.get_template(model.template_id.as_str())
    }

    /// The file of model `model_id` under the model directory.
    pub fn get_model_path(&self, model_id: &str) -> (r: Result<String, Error>)
        ensures
            find_model(self.models@, model_id@) is None ==> (r matches Err(e) && e is ModelNotFound),
            find_model(self.models@, model_id@) matches Some(i) ==> (r matches Ok(p) && p@
                == join_path(self.model_dir@, self.models@[i].path@)),
    {
        let model = self.get_model(model_id)?;
        let path = crate::text::chars_of(model.path.as_str());
        let dir = crate::text::chars_of(self.model_dir.as_str());
        if path.len() > 0 && path[0] == '/' {
            return Ok(String::from_str(model.path.as_str()));
        }
        if dir.len() > 0 && dir[dir.len() - 1] == '/' {
            return Ok(String::from_str(self.model_dir.as_str()).concat(model.path.as_str()));
        }
        Ok(String::from_str(self.model_dir.as_str()).concat("/").concat(model.path.as_str()))
    }

    pub fn set_model_dir(&mut self, dir: String)
        ensures
            final(self).model_dir@ == dir@,
            final(self).models == old(self).models,
            final(self).templates == old(self).templates,
            final(self).default_model_id == old(self).default_model_id,
    {
        self.model_dir = dir;
    }

    /// The defaults of model `model_id` as generation parameters, under a
    /// fresh request id.
    pub fn get_generation_params(&self, model_id: &str) -> (r: Result<GenerationParams, Error>)
        ensures
            find_model(self.models@, model_id@) is None ==> (r matches Err(e) && e is ModelNotFound),
            find_model(self.models@, model_id@) matches Some(i) ==> (r matches Ok(p) && {
                let m = self.models@[i];
                &&& p.request_id@.len() == UUID_STRING_LEN
                &&& p.temperature == m.defaults.temperature
                &&& p.max_tokens == m.defaults.max_tokens
                &&& p.top_p == m.defaults.top_p
                &&& p.top_k == m.defaults.top_k
                &&& p.repeat_penalty == m.defaults.repeat_penalty
                &&& str_views(p.stop_sequences@) == str_views(m.stop_sequences@)
            }),
    {
        let model = self.get_model(model_id)?;
        Ok(
            GenerationParams {
                request_id: new_uuid_string(),
                temperature: model.defaults.temperature,
                max_tokens: model.defaults.max_tokens,
                top_p: model.defaults.top_p,
                top_k: model.defaults.top_k,
                repeat_penalty: model.defaults.repeat_penalty,
                stop_sequences: copy_strings(&model.stop_sequences),
            },
        )
    }

    /// The defaults of model `model_id` with each given override in its place.
    pub fn apply_overrides(
        &self,
        model_id: &str,
        temperature: Option<i64>,
        max_tokens: Option<usize>,
        top_p: Option<i64>,
        top_k: Option<i32>,
        repeat_penalty: Option<i64>,
    ) -> (r: Result<GenerationParams, Error>)
        ensures
            find_model(self.models@, model_id@) is None ==> (r matches Err(e) && e is ModelNotFound),
            find_model(self.models@, model_id@) matches Some(i) ==> (r matches Ok(p) && {
                let m = self.models@[i];
                &&& p.request_id@.len() == UUID_STRING_LEN
                &&& p.temperature == or_default(temperature, m.defaults.temperature)
                &&& p.max_tokens == or_default(max_tokens, m.defaults.max_tokens)
                &&& p.top_p == or_default(top_p, m.defaults.top_p)
                &&& p.top_k == or_default(top_k, m.defaults.top_k)
                &&& p.repeat_penalty == or_default(repeat_penalty, m.defaults.repeat_penalty)
                &&& str_views(p.stop_sequences@) == str_views(m.stop_sequences@)
            }),
    {
        let mut params = self.get_generation_params(model_id)?;
        if let Some(t) = temperature {
            params.temperature = t;
        }
        if let Some(m) = max_tokens {
            params.max_tokens = m;
        }
        if let Some(p) = top_p {
            params.top_p = p;
        }
        if let Some(k) = top_k {
            params.top_k = k;
        }
        if let Some(rp) = repeat_penalty {
            params.repeat_penalty = rp;
        }
        Ok(params)
    }

    /// The ids of all models, in registry order.
    pub fn list_models(&self) -> (r: Vec<String>)
        ensures
            r@.len() == self.models@.len(),
            forall|k: int| 0 <= k < r@.len() ==> #[trigger] r@[k]@ == self.models@[k].id@,
    {
        let mut out: Vec<String> = Vec::new();
        let mut i: usize = 0;
        while i < self.models.len()
            invariant
                i <= self.models@.len(),
                out@.len() == i,
                forall|k: int| 0 <= k < i ==> #[trigger] out@[k]@ == self.models@[k].id@,
            decreases self.models.len() - i,
        {
            out.push(String::from_str(self.models[i].id.as_str()));
            i = i + 1;
        }
        out
    }
}

pub proof fn lemma_default_count_grows(models: Seq<ModelConfig>, k: int)
    requires
        0 <= k <= models.len(),
        default_count(models.subrange(0, k)) > 1,
    ensures
        default_count(models) > 1,
    decreases models.len() - k,
{
    if k < models.len() {
        assert(models.subrange(0, k + 1).drop_last() =~= models.subrange(0, k));
        lemma_default_count_grows(models, k + 1);
    } else {
        assert(models.subrange(0, k) =~= models);
    }
}

fn copy_strings(v: &Vec<String>) -> (r: Vec<String>)
    ensures
        str_views(r@) == str_views(v@),
{
    let mut out: Vec<String> = Vec::new();
    let mut i: usize = 0;
    while i < v.len()
        invariant
            i <= v@.len(),
            out@.len() == i,
            forall|k: int| 0 <= k < i ==> #[trigger] out@[k]@ == v@[k]@,
        decreases v.len() - i,
    {
        out.push(String::from_str(v[i].as_str()));
        i = i + 1;
    }
    assert(str_views(out@) =~= str_views(v@));
    out
}

impl ModelConfig {
    /// A copy with the same values.
    pub fn clone_config(&self) -> (r: ModelConfig)
        ensures
            r.id@ == self.id@,
            r.path@ == self.path@,
            r.template_id@ == self.template_id@,
            r.defaults == self.defaults,
            r.resources == self.resources,
            r.default == self.default,
            r.ctx_window == self.ctx_window,
    {
        ModelConfig {
            id: String::from_str(self.id.as_str()),
            name: String::from_str(self.name.as_str()),
            path: String::from_str(self.path.as_str()),
            ctx_window: self.ctx_window,
            template_id: String::from_str(self.template_id.as_str()),
            stop_sequences: copy_strings(&self.stop_sequences),
            eos_token: String::from_str(self.eos_token.as_str()),
            defaults: self.defaults,
            resources: self.resources,
            default: self.default,
        }
    }
}

/// The server's own settings.
#[derive(Debug, Clone)]
pub struct ServerConfig {
    pub host: String,
    pub port: u16,
    pub max_connections: usize,
}

/// Settings of the engine subprocess.
#[derive(Debug, Clone)]
pub struct RuntimeConfig {
    pub llama_server_port: u16,
    pub threads: usize,
    pub gpu_layers: Option<i32>,
}

/// Where models are found.
#[derive(Debug, Clone)]
pub struct ModelsConfig {
    pub directory: String,
    pub registry_file: Option<String>,
    pub default_model: String,
}

/// All settings.
#[derive(Debug, Clone)]
pub struct AppConfig {
    pub server: ServerConfig,
    pub runtime: RuntimeConfig,
    pub models: ModelsConfig,
}

impl AppConfig {
    /// The defaults, with models under `home` (the current directory when
    /// the home directory is unknown): loopback port 8081, engine port 8080,
    /// four threads.
    pub fn with_home(home: Option<String>) -> (r: AppConfig)
        ensures
            r.server.host@ == "127.0.0.1"@,
            r.server.port == 8081,
            r.server.max_connections == 100,
            r.runtime.llama_server_port == 8080,
            r.runtime.threads == 4,
            r.runtime.gpu_layers is None,
            r.models.directory@ == (match home {
                Some(h) => h@,
                None => "."@,
            }) + MODELS_SUBDIR@,
            r.models.registry_file is None,
            r.models.default_model@ == DEFAULT_MODEL_ID@,
    {
        let base = match home {
            Some(h) => h,
            None => String::from_str("."),
        };
        AppConfig {
            server: ServerConfig { host: String::from_str("127.0.0.1"), port: 8081, max_connections: 100 },
            runtime: RuntimeConfig { llama_server_port: 8080, threads: 4, gpu_layers: None },
            models: ModelsConfig {
                directory: base.concat(MODELS_SUBDIR),
                registry_file: None,
                default_model: String::from_str(DEFAULT_MODEL_ID),
            },
        }
    }
}

/// Relies on `dirs::home_dir`: the user's home directory, when the platform
/// knows one. Nothing is stated of its value, which depends on the machine.
#[verifier::external_body]
fn home_dir() -> (r: Option<String>) {
    dirs::home_dir().map(|p| p.to_string_lossy().into_owned())
}

impl Default for AppConfig {
    /// The defaults of `with_home`, with models under the user's home directory.
    fn default() -> (r: Self)
        ensures
            r.server.host@ == "127.0.0.1"@,
            r.server.port == 8081,
            r.server.max_connections == 100,
            r.runtime.llama_server_port == 8080,
            r.runtime.threads == 4,
            r.runtime.gpu_layers is None,
            r.models.registry_file is None,
            r.models.default_model@ == DEFAULT_MODEL_ID@,
    {
        AppConfig::with_home(home_dir())
    }
}

} // verus!
