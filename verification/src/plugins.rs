//! Plugins: what a plugin has to offer, and a manager that keeps the loaded
//! ones by name.

use crate::text::same_text;
use std::collections::HashMap;
use vstd::prelude::*;
use vstd::string::StringExecFns;

verus! {

/// Why a plugin operation failed.
#[derive(Debug)]
pub enum PluginError {
    /// No plugin of this name is loaded.
    NotFound { name: String },
    /// A plugin of this name is loaded already.
    AlreadyLoaded { name: String },
    /// The plugin itself reported a failure.
    Failed { reason: String },
}

impl PluginError {
    /// The message of the error.
    pub open spec fn spec_message(self) -> Seq<char> {
        match self {
            PluginError::NotFound { name } => "Plugin not found: "@ + name@,
            PluginError::AlreadyLoaded { name } => "Plugin already loaded: "@ + name@,
            PluginError::Failed { reason } => "Plugin failed: "@ + reason@,
        }
    }

    /// The message of the error.
    pub fn message(&self) -> (text: String)
        ensures
            text@ == self.spec_message(),
    {
        match self {
            PluginError::NotFound { name } => {
                let mut s = String::from_str("Plugin not found: ");
                s.append(name.as_str());
                s
            },
            PluginError::AlreadyLoaded { name } => {
                let mut s = String::from_str("Plugin already loaded: ");
                s.append(name.as_str());
                s
            },
            PluginError::Failed { reason } => {
                let mut s = String::from_str("Plugin failed: ");
                s.append(reason.as_str());
                s
            },
        }
    }
}

/// What every plugin offers. A plugin keeps its name for life.
///
/// A plugin says of itself what its version and description are, and which
/// answers its `init`, `execute` and `cleanup` may give: whoever holds a
/// plugin knows that much of a call, and no more.
pub trait NetweaverPlugin: Send + Sync {
    /// The name that the plugin goes by.
    spec fn spec_name(&self) -> Seq<char>;

    /// The version of the plugin.
    spec fn spec_version(&self) -> Seq<char>;

    /// What the plugin says it is for.
    spec fn spec_description(&self) -> Seq<char>;

    /// Whether `init` may answer `r` when given `config`.
    spec fn init_outcome(
        &self,
        config: &HashMap<String, String>,
        r: Result<(), PluginError>,
    ) -> bool;

    /// Whether `execute` may answer `r` when given `args`.
    spec fn execute_outcome(&self, args: Seq<String>, r: Result<(), PluginError>) -> bool;

    /// Whether `cleanup` may answer `r`.
    spec fn cleanup_outcome(&self, r: Result<(), PluginError>) -> bool;

    /// Returns the plugin name
    fn name(&self) -> (name: &str)
        ensures
            name@ == self.spec_name(),
    ;

    /// Returns the plugin version
    fn version(&self) -> (version: &str)
        ensures
            version@ == self.spec_version(),
    ;

    /// Returns plugin description
    fn description(&self) -> (text: &str)
        ensures
            text@ == self.spec_description(),
    ;

    /// Initialize the plugin with configuration
    fn init(&mut self, config: &HashMap<String, String>) -> (r: Result<(), PluginError>)
        ensures
            old(self).init_outcome(config, r),
            final(self).spec_name() == old(self).spec_name(),
    ;

    /// Execute plugin-specific functionality
    fn execute(&self, args: &[String]) -> (r: Result<(), PluginError>)
        ensures
            self.execute_outcome(args@, r),
    ;

    /// Cleanup resources when plugin is unloaded
    fn cleanup(&mut self) -> (r: Result<(), PluginError>)
        ensures
            old(self).cleanup_outcome(r),
            final(self).spec_name() == old(self).spec_name(),
    ;
}

/// A boxed plugin is the plugin in the box: it has that plugin's name,
/// version and description, and every call is handed on to it and answered as
/// that plugin answers.
impl NetweaverPlugin for Box<dyn NetweaverPlugin> {
    open spec fn spec_name(&self) -> Seq<char> {
        (**self).spec_name()
    }

    open spec fn spec_version(&self) -> Seq<char> {
        (**self).spec_version()
    }

    open spec fn spec_description(&self) -> Seq<char> {
        (**self).spec_description()
    }

    open spec fn init_outcome(
        &self,
        config: &HashMap<String, String>,
        r: Result<(), PluginError>,
    ) -> bool {
        (**self).init_outcome(config, r)
    }

    open spec fn execute_outcome(&self, args: Seq<String>, r: Result<(), PluginError>) -> bool {
        (**self).execute_outcome(args, r)
    }

    open spec fn cleanup_outcome(&self, r: Result<(), PluginError>) -> bool {
        (**self).cleanup_outcome(r)
    }

    fn name(&self) -> (name: &str) {
        (**self).name()
    }

    fn version(&self) -> (version: &str) {
        (**self).version()
    }

    fn description(&self) -> (text: &str) {
        (**self).description()
    }

    fn init(&mut self, config: &HashMap<String, String>) -> (r: Result<(), PluginError>) {
        (**self).init(config)
    }

    fn execute(&self, args: &[String]) -> (r: Result<(), PluginError>) {
        (**self).execute(args)
    }

    fn cleanup(&mut self) -> (r: Result<(), PluginError>) {
        (**self).cleanup()
    }
}

/// The names of a list of plugins, in the order of the list.
pub open spec fn names_of<P: NetweaverPlugin>(plugins: Seq<P>) -> Seq<Seq<char>> {
    Seq::new(plugins.len(), |i: int| plugins[i].spec_name())
}

/// Where the plugin called `name` stands in a list of names; the length of
/// the list where none has that name.
pub open spec fn position_of(names: Seq<Seq<char>>, name: Seq<char>) -> int
    decreases names.len(),
{
    if names.len() == 0 {
        0
    } else if names[0] == name {
        0
    } else {
        1 + position_of(names.skip(1), name)
    }
}

/// The position of a name is the first place where it stands.
pub proof fn lemma_position_of(names: Seq<Seq<char>>, name: Seq<char>, i: int)
    requires
        0 <= i <= names.len(),
        forall|j: int| 0 <= j < i ==> names[j] != name,
        i < names.len() ==> names[i] == name,
    ensures
        position_of(names, name) == i,
    decreases i,
{
    if i > 0 {
        let t = names.skip(1);
        assert forall|j: int| 0 <= j < i - 1 implies t[j] != name by {
            assert(t[j] == names[j + 1]);
        }
        if i - 1 < t.len() {
            assert(t[i - 1] == names[i]);
        }
        lemma_position_of(t, name, i - 1);
    }
}

/// Before the position of a name no plugin has it; at the position one has,
/// where the position lies within the list.
pub proof fn lemma_position_found(names: Seq<Seq<char>>, name: Seq<char>)
    ensures
        0 <= position_of(names, name) <= names.len(),
        forall|j: int| 0 <= j < position_of(names, name) ==> names[j] != name,
        position_of(names, name) < names.len() ==> names[position_of(names, name)] == name,
    decreases names.len(),
{
    if names.len() > 0 && names[0] != name {
        let t = names.skip(1);
        lemma_position_found(t, name);
        assert forall|j: int| 0 <= j < position_of(names, name) implies names[j] != name by {
            if j > 0 {
                assert(t[j - 1] == names[j]);
            }
        }
        if position_of(names, name) < names.len() {
            assert(t[position_of(t, name)] == names[position_of(names, name)]);
        }
    }
}

/// Plugin manager handles loading, unloading, and executing plugins.
///
/// The plugins are of one type; where plugins of several types are to be
/// managed together, that type is a boxed plugin, which is what the manager
/// holds where no type is named.
pub struct PluginManager<P: NetweaverPlugin = Box<dyn NetweaverPlugin>> {
    plugins: Vec<P>,
    plugin_dir: String,
}

impl<P: NetweaverPlugin> PluginManager<P> {
    /// The loaded plugins, in the order in which they were loaded.
    pub closed spec fn loaded(&self) -> Seq<P> {
        self.plugins@
    }

    /// The names of the loaded plugins, in the order in which they were
    /// loaded.
    pub open spec fn names(&self) -> Seq<Seq<char>> {
        names_of(self.loaded())
    }

    /// The directory that plugins are looked for in.
    pub closed spec fn directory(&self) -> Seq<char> {
        self.plugin_dir@
    }

    /// Whether a plugin of this name is loaded.
    pub open spec fn is_loaded(&self, name: Seq<char>) -> bool {
        position_of(self.names(), name) < self.names().len()
    }

    /// No two loaded plugins share a name.
    pub open spec fn wf(&self) -> bool {
        self.names().no_duplicates()
    }

    /// A manager for the plugins of `plugin_dir`, with none loaded.
    pub fn new(plugin_dir: &str) -> (manager: PluginManager<P>)
        ensures
            manager.wf(),
            manager.loaded() == Seq::<P>::empty(),
            manager.names() == Seq::<Seq<char>>::empty(),
            manager.directory() == plugin_dir@,
    {
        let manager = PluginManager { plugins: Vec::new(), plugin_dir: String::from_str(plugin_dir) };
        assert(manager.names() =~= Seq::<Seq<char>>::empty());
        manager
    }

    /// The directory that plugins are looked for in.
    pub fn plugin_dir(&self) -> (dir: &str)
        ensures
            dir@ == self.directory(),
    {
        self.plugin_dir.as_str()
    }

    /// Finds the plugin called `name`.
    fn find(&self, name: &str) -> (i: usize)
        ensures
            i == position_of(self.names(), name@),
            i <= self.plugins@.len(),
    {
        let n = self.plugins.len();
        let mut i: usize = 0;
        while i < n
            invariant
                i <= n,
                n == self.plugins@.len(),
                forall|j: int| 0 <= j < i ==> self.names()[j] != name@,
            decreases n - i,
        {
            if same_text(self.plugins[i].name(), name) {
                proof {
                    lemma_position_of(self.names(), name@, i as int);
                }
                return i;
            }
            i = i + 1;
        }
        proof {
            lemma_position_of(self.names(), name@, n as int);
        }
        n
    }

    /// Load a plugin from a shared library. Nothing is loaded from shared
    /// libraries as yet: the call succeeds and changes nothing.
    pub fn load_plugin(&mut self, plugin_name: &str) -> (r: Result<(), PluginError>)
        ensures
            r is Ok,
            final(self).loaded() == old(self).loaded(),
            final(self).directory() == old(self).directory(),
    {
        Ok(())
    }

    /// Takes a plugin into the manager, behind the plugins loaded before.
    ///
    /// Fails with `AlreadyLoaded`, changing nothing, exactly when a plugin of
    /// the same name is loaded.
    pub fn register_plugin(&mut self, plugin: P) -> (r: Result<(), PluginError>)
        requires
            old(self).wf(),
        ensures
            final(self).wf(),
            final(self).directory() == old(self).directory(),
            old(self).is_loaded(plugin.spec_name()) ==> r is Err && r->Err_0 is AlreadyLoaded
                && r->Err_0->AlreadyLoaded_name@ == plugin.spec_name() && final(self).loaded()
                == old(self).loaded(),
            !old(self).is_loaded(plugin.spec_name()) ==> r is Ok && final(self).loaded() == old(
                self,
            ).loaded().push(plugin) && final(self).names() == old(self).names().push(
                plugin.spec_name(),
            ),
    {
        let i = self.find(plugin.name());
        if i < self.plugins.len() {
            return Err(PluginError::AlreadyLoaded { name: String::from_str(plugin.name()) });
        }
        let ghost name = plugin.spec_name();
        let ghost before = self.names();
        let ghost loaded = self.plugins@;
        self.plugins.push(plugin);
        proof {
            assert(self.plugins@.len() == loaded.len() + 1);
            assert forall|j: int| 0 <= j < self.names().len() implies self.names()[j]
                == before.push(name)[j] by {
                if j < loaded.len() {
                    assert(self.plugins@[j] == loaded[j]);
                } else {
                    assert(self.plugins@[j].spec_name() == name);
                }
            }
            assert(self.names() =~= before.push(name));
            lemma_position_found(before, name);
        }
        Ok(())
    }

    /// Unload a plugin: it leaves the manager and is asked to clean up.
    ///
    /// Where no plugin of this name is loaded, the call succeeds and changes
    /// nothing. Where one is, it is gone afterwards whatever its cleanup
    /// reports, and the call reports what the cleanup reported.
    pub fn unload_plugin(&mut self, plugin_name: &str) -> (r: Result<(), PluginError>)
        requires
            old(self).wf(),
        ensures
            final(self).wf(),
            final(self).directory() == old(self).directory(),
            !old(self).is_loaded(plugin_name@) ==> r is Ok && final(self).loaded() == old(
                self,
            ).loaded(),
            old(self).is_loaded(plugin_name@) ==> final(self).names() == old(self).names().remove(
                position_of(old(self).names(), plugin_name@),
            ),
            old(self).is_loaded(plugin_name@) ==> final(self).loaded() == old(self).loaded().remove(
                position_of(old(self).names(), plugin_name@),
            ),
            old(self).is_loaded(plugin_name@) ==> old(self).loaded()[position_of(
                old(self).names(),
                plugin_name@,
            )].cleanup_outcome(r),
            !final(self).is_loaded(plugin_name@),
    {
        let i = self.find(plugin_name);
        if i >= self.plugins.len() {
            return Ok(());
        }
        let ghost before = self.names();
        let ghost loaded = self.plugins@;
        proof {
            lemma_position_found(before, plugin_name@);
        }
        let mut plugin = self.plugins.remove(i);
        proof {
            assert forall|j: int| 0 <= j < self.names().len() implies self.names()[j]
                == before.remove(i as int)[j] by {
                if j < i {
                    assert(self.plugins@[j] == loaded[j]);
                } else {
                    assert(self.plugins@[j] == loaded[j + 1]);
                }
            }
            assert(self.names() =~= before.remove(i as int));
            assert forall|a: int, b: int|
                0 <= a < self.names().len() && 0 <= b < self.names().len() && a != b implies self.names()[a]
                != self.names()[b] by {
                let a0 = if a < i { a } else { a + 1 };
                let b0 = if b < i { b } else { b + 1 };
                assert(self.names()[a] == before[a0]);
                assert(self.names()[b] == before[b0]);
            }
            assert forall|j: int| 0 <= j < self.names().len() implies self.names()[j]
                != plugin_name@ by {
                let j0 = if j < i { j } else { j + 1 };
                assert(self.names()[j] == before[j0]);
                assert(before[i as int] == plugin_name@);
            }
            lemma_position_of(self.names(), plugin_name@, self.names().len() as int);
        }
        plugin.cleanup()
    }

    /// Execute a plugin command.
    ///
    /// Fails with `NotFound` where no plugin of this name is loaded;
    /// otherwise reports what the plugin reports.
    pub fn execute_plugin(&self, plugin_name: &str, args: &[String]) -> (r: Result<(), PluginError>)
        ensures
            !self.is_loaded(plugin_name@) ==> r is Err && r->Err_0 is NotFound
                && r->Err_0->NotFound_name@ == plugin_name@,
            self.is_loaded(plugin_name@) ==> self.loaded()[position_of(
                self.names(),
                plugin_name@,
            )].execute_outcome(args@, r),
    {
        let i = self.find(plugin_name);
        if i >= self.plugins.len() {
            return Err(PluginError::NotFound { name: String::from_str(plugin_name) });
        }
        self.plugins[i].execute(args)
    }

    /// List all loaded plugins, in the order in which they were loaded.
    pub fn list_plugins(&self) -> (list: Vec<&str>)
        ensures
            list@.len() == self.names().len(),
            forall|i: int| 0 <= i < list@.len() ==> (#[trigger] list@[i])@ == self.names()[i],
    {
        let n = self.plugins.len();
        let mut list: Vec<&str> = Vec::new();
        let mut i: usize = 0;
        while i < n
            invariant
                i <= n,
                n == self.plugins@.len(),
                list@.len() == i,
                forall|j: int| 0 <= j < i ==> (#[trigger] list@[j])@ == self.names()[j],
            decreases n - i,
        {
            list.push(self.plugins[i].name());
            i = i + 1;
        }
        list
    }

    /// Discover available plugins in the plugin directory. None are found as
    /// yet, whether the directory exists or not.
    pub fn discover_plugins(&self) -> (r: Result<Vec<String>, PluginError>)
        ensures
            r is Ok,
            r->Ok_0@.len() == 0,
    {
        Ok(Vec::new())
    }
}

/// Example plugin demonstrating the plugin interface
pub struct ExamplePlugin {
    name: String,
    version: String,
}

impl ExamplePlugin {
    /// The example plugin: it is called `example`, has version `0.1.0`, and
    /// says what it is an example of.
    pub fn new() -> (plugin: ExamplePlugin)
        ensures
            plugin.spec_name() == "example"@,
            plugin.spec_version() == "0.1.0"@,
    {
        ExamplePlugin { name: String::from_str("example"), version: String::from_str("0.1.0") }
    }
}

/// The example plugin takes every configuration and every argument, and all
/// its calls succeed.
impl NetweaverPlugin for ExamplePlugin {
    closed spec fn spec_name(&self) -> Seq<char> {
        self.name@
    }

    closed spec fn spec_version(&self) -> Seq<char> {
        self.version@
    }

    open spec fn spec_description(&self) -> Seq<char> {
        "Example plugin demonstrating the NetWeaver plugin system"@
    }

    open spec fn init_outcome(
        &self,
        config: &HashMap<String, String>,
        r: Result<(), PluginError>,
    ) -> bool {
        r is Ok
    }

    open spec fn execute_outcome(&self, args: Seq<String>, r: Result<(), PluginError>) -> bool {
        r is Ok
    }

    open spec fn cleanup_outcome(&self, r: Result<(), PluginError>) -> bool {
        r is Ok
    }

    fn name(&self) -> (name: &str) {
        self.name.as_str()
    }

    fn version(&self) -> (version: &str) {
        self.version.as_str()
    }

    fn description(&self) -> (text: &str) {
        "Example plugin demonstrating the NetWeaver plugin system"
    }

    fn init(&mut self, _config: &HashMap<String, String>) -> (r: Result<(), PluginError>)
        ensures
            final(self).spec_version() == old(self).spec_version(),
    {
        Ok(())
    }

    fn execute(&self, args: &[String]) -> (r: Result<(), PluginError>) {
        Ok(())
    }

    fn cleanup(&mut self) -> (r: Result<(), PluginError>)
        ensures
            final(self).spec_version() == old(self).spec_version(),
    {
        Ok(())
    }
}

} // verus!
