//! Runtime configuration and its builder.

use vstd::prelude::*;

verus! {

/// Configuration of a runtime environment.
#[derive(Debug)]
pub struct RuntimeConfig {
    /// Directory of the BAML schema, where one is loaded.
    pub schema_path: Option<String>,
    /// Whether the QuickJS bridge is started.
    pub enable_quickjs: bool,
    /// Environment variables handed to the BAML runtime, in order of addition.
    pub env_vars: Vec<(String, String)>,
}

/// Abstract value of a runtime configuration.
pub struct RuntimeConfigView {
    pub schema_path: Option<Seq<char>>,
    pub enable_quickjs: bool,
    pub env_vars: Seq<(Seq<char>, Seq<char>)>,
}

/// The default configuration: no schema, no QuickJS, no variables.
pub open spec fn default_config() -> RuntimeConfigView {
    RuntimeConfigView { schema_path: None, enable_quickjs: false, env_vars: Seq::empty() }
}

impl View for RuntimeConfig {
    type V = RuntimeConfigView;

    open spec fn view(&self) -> RuntimeConfigView {
        RuntimeConfigView {
            schema_path: self.schema_path.deep_view(),
            enable_quickjs: self.enable_quickjs,
            env_vars: self.env_vars.deep_view(),
        }
    }
}

impl Clone for RuntimeConfig {
    fn clone(&self) -> (r: Self)
        ensures
            r@ == self@,
    {
        let mut env_vars: Vec<(String, String)> = Vec::new();
        let n = self.env_vars.len();
        let mut i: usize = 0;
        while i < n
            invariant
                n == self.env_vars.len(),
                i <= n,
                env_vars.deep_view() =~= self.env_vars.deep_view().take(i as int),
            decreases n - i,
        {
            let (k, v) = &self.env_vars[i];
            let ghost before = env_vars.deep_view();
            env_vars.push((k.clone(), v.clone()));
            proof {
                assert(env_vars.deep_view() =~= before.push(self.env_vars.deep_view()[i as int]));
                assert(self.env_vars.deep_view().take(i + 1) =~= self.env_vars.deep_view().take(i as int).push(
                    self.env_vars.deep_view()[i as int],
                ));
            }
            i = i + 1;
        }
        proof {
            assert(self.env_vars.deep_view().take(n as int) =~= self.env_vars.deep_view());
        }
        RuntimeConfig { schema_path: self.schema_path.clone(), enable_quickjs: self.enable_quickjs, env_vars }
    }
}

impl Default for RuntimeConfig {
    fn default() -> (r: Self)
        ensures
            r@ == default_config(),
    {
        let r = RuntimeConfig { schema_path: None, enable_quickjs: false, env_vars: Vec::new() };
        assert(r@.env_vars =~= Seq::<(Seq<char>, Seq<char>)>::empty());
        r
    }
}

impl RuntimeConfig {
    /// The default configuration.
    pub fn new() -> (r: Self)
        ensures
            r@ == default_config(),
    {
        RuntimeConfig::default()
    }

    /// Sets the BAML schema path.
    pub fn with_schema_path(self, path: String) -> (r: Self)
        ensures
            r@ == (RuntimeConfigView { schema_path: Some(path@), ..self@ }),
    {
        let mut c = self;
        c.schema_path = Some(path);
        c
    }

    /// Turns the QuickJS bridge on or off.
    pub fn with_quickjs(self, enable: bool) -> (r: Self)
        ensures
            r@ == (RuntimeConfigView { enable_quickjs: enable, ..self@ }),
    {
        let mut c = self;
        c.enable_quickjs = enable;
        c
    }

    /// Adds an environment variable after those already added.
    pub fn with_env_var(self, key: String, value: String) -> (r: Self)
        ensures
            r@ == (RuntimeConfigView { env_vars: self@.env_vars.push((key@, value@)), ..self@ }),
    {
        let mut c = self;
        let ghost before = c.env_vars.deep_view();
        c.env_vars.push((key, value));
        proof {
            assert(c.env_vars.deep_view() =~= before.push((key@, value@)));
        }
        c
    }
}

/// Builds a runtime environment from a configuration.
pub struct RuntimeBuilder {
    config: RuntimeConfig,
}

impl View for RuntimeBuilder {
    type V = RuntimeConfigView;

    closed spec fn view(&self) -> RuntimeConfigView {
        self.config@
    }
}

impl Default for RuntimeBuilder {
    fn default() -> (r: Self)
        ensures
            r@ == default_config(),
    {
        RuntimeBuilder::new()
    }
}

impl RuntimeBuilder {
    /// A builder with the default configuration.
    pub fn new() -> (r: Self)
        ensures
            r@ == default_config(),
    {
        RuntimeBuilder { config: RuntimeConfig::default() }
    }

    /// Sets the BAML schema path.
    pub fn with_schema_path(self, path: String) -> (r: Self)
        ensures
            r@ == (RuntimeConfigView { schema_path: Some(path@), ..self@ }),
    {
        RuntimeBuilder { config: self.config.with_schema_path(path) }
    }

    /// Turns the QuickJS bridge on or off.
    pub fn with_quickjs(self, enable: bool) -> (r: Self)
        ensures
            r@ == (RuntimeConfigView { enable_quickjs: enable, ..self@ }),
    {
        RuntimeBuilder { config: self.config.with_quickjs(enable) }
    }

    /// Adds an environment variable after those already added.
    pub fn with_env_var(self, key: String, value: String) -> (r: Self)
        ensures
            r@ == (RuntimeConfigView { env_vars: self@.env_vars.push((key@, value@)), ..self@ }),
    {
        RuntimeBuilder { config: self.config.with_env_var(key, value) }
    }

    /// The configuration that the builder has collected.
    pub fn config(&self) -> (r: &RuntimeConfig)
        ensures
            r@ == self@,
    {
        &self.config
    }
}

} // verus!
