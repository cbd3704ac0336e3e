//! Settings of a publish-subscribe transport, and the choice of its native namespace.

use crate::pull_queue::Iceoryx2PullMismatchQueueFullPolicy;
use crate::status::{UCode, UStatus};
use crate::text::same_text;
use iceoryx2::prelude::Config;
use iceoryx2_bb_system_types::file_name::FileName;
use iceoryx2_bb_system_types::path::{Path, SemanticString};
use std::time::Duration;
use vstd::prelude::*;
use vstd::string::*;

verus! {

/// The settings of iceoryx2 itself, `iceoryx2::prelude::Config`.
#[verifier::external_type_specification]
#[verifier::external_body]
pub struct NativeConfig(Config);

/// How the data segment of a publisher grows.
#[derive(Clone, Copy, Debug, PartialEq, Eq, Structural)]
pub enum AllocationStrategy {
    BestFit,
    PowerOfTwo,
    Static,
}

/// The directory and the file name prefix that keep the services of one bus apart from others.
#[derive(Clone, Debug, PartialEq, Eq)]
pub struct Namespace {
    root_path: String,
    prefix: String,
}

/// Settings of a publish-subscribe transport.
#[derive(Clone, Debug, PartialEq, Eq)]
pub struct Iceoryx2PubSubConfig {
    pub publisher_initial_max_slice_len: usize,
    pub publisher_allocation_strategy: AllocationStrategy,
    pub pull_mismatch_queue_capacity: usize,
    pub pull_mismatch_queue_full_policy: Iceoryx2PullMismatchQueueFullPolicy,
    pub iceoryx2_config: Option<Config>,
    pub namespace: Option<Namespace>,
    pub publisher_readiness_minimum: usize,
    pub publisher_readiness_timeout: Option<Duration>,
}

/// The value of an environment variable.
#[derive(Clone, Debug, PartialEq, Eq)]
pub enum EnvValue {
    Unset,
    NotUnicode,
    Text(String),
}

/// What replaces the directory and the prefix of the native settings; where there is no
/// replacement the native default stays.
#[derive(Clone, Debug, PartialEq, Eq)]
pub struct NamespaceOverride {
    pub root_path: Option<String>,
    pub prefix: Option<String>,
}

/// The settings that a node is created with.
#[derive(Clone, Debug, PartialEq, Eq)]
pub enum NodeSettings {
    /// Those that the configuration of the transport carries.
    Explicit,
    /// The native defaults with replacements.
    Overridden(NamespaceOverride),
    /// The native defaults.
    Native,
}

/// Whether a text has the form of a native path on every platform, but for colons.
pub open spec fn is_path_text(text: Seq<char>) -> bool {
    &&& text.len() <= 255
    &&& forall|i: int| 0 <= i < text.len() ==> is_path_char(#[trigger] text[i])
}

/// Whether a character may stand in a native path.
pub open spec fn is_path_char(c: char) -> bool {
    32 <= c as int <= 127 && c != '<' && c != '>' && c != '"' && c != '|' && c != '?' && c != '*'
}

/// Whether a text has the form of a native file name on every platform, but for colons.
pub open spec fn is_file_name_text(text: Seq<char>) -> bool {
    &&& 0 < text.len() <= 255
    &&& text != "."@
    &&& text != ".."@
    &&& forall|i: int|
        0 <= i < text.len() ==> is_path_char(#[trigger] text[i]) && text[i] != '/' && text[i]
            != '\\'
}

/// Calls `iceoryx2_bb_system_types::path::Path::new`: a path holds at most 255 characters from 32
/// to 127, none of them one of `<>"|?*`. Whether it may hold colons depends on the platform.
#[verifier::external_body]
fn is_native_path(text: &str) -> (accepted: bool)
    ensures
        accepted ==> is_path_text(text@),
        is_path_text(text@) && !text@.contains(':') ==> accepted,
{
    Path::new(text.as_bytes()).is_ok()
}

/// Calls `iceoryx2_bb_system_types::file_name::FileName::new`: a file name is neither empty nor
/// `.` nor `..`, and holds at most 255 characters from 32 to 127, none of them a slash, a
/// backslash or one of `<>"|?*`. Whether it may hold colons depends on the platform.
#[verifier::external_body]
fn is_native_file_name(text: &str) -> (accepted: bool)
    ensures
        accepted ==> is_file_name_text(text@),
        is_file_name_text(text@) && !text@.contains(':') ==> accepted,
{
    FileName::new(text.as_bytes()).is_ok()
}

/// The parts of a namespace.
pub struct NamespaceView {
    pub root_path: Seq<char>,
    pub prefix: Seq<char>,
}

impl View for Namespace {
    type V = NamespaceView;

    closed spec fn view(&self) -> NamespaceView {
        NamespaceView { root_path: self.root_path@, prefix: self.prefix@ }
    }
}

/// The directory and the prefix that a node works with: nodes that differ in one of them share no
/// service.
#[derive(Debug)]
pub struct Bus {
    pub root_path: String,
    pub prefix: String,
}

impl View for Bus {
    type V = NamespaceView;

    open spec fn view(&self) -> NamespaceView {
        NamespaceView { root_path: self.root_path@, prefix: self.prefix@ }
    }
}

impl Clone for Bus {
    fn clone(&self) -> (copy: Self)
        ensures
            copy@ == self@,
    {
        Bus { root_path: self.root_path.clone(), prefix: self.prefix.clone() }
    }
}

impl Bus {
    /// Whether two nodes work with the same directory and the same prefix.
    pub fn is_same(&self, other: &Bus) -> (same: bool)
        ensures
            same == (self@ == other@),
    {
        same_text(self.root_path.as_str(), other.root_path.as_str()) && same_text(
            self.prefix.as_str(),
            other.prefix.as_str(),
        )
    }
}

/// Whether a directory and a prefix have the form of a namespace: an absolute path, and a file
/// name.
pub open spec fn is_namespace(root_path: Seq<char>, prefix: Seq<char>) -> bool {
    &&& root_path.len() > 0 && root_path[0] == '/'
    &&& is_path_text(root_path)
    &&& is_file_name_text(prefix)
}

/// Whether neither part holds a colon, which some platforms do not accept.
pub open spec fn is_portable(root_path: Seq<char>, prefix: Seq<char>) -> bool {
    !root_path.contains(':') && !prefix.contains(':')
}

/// Whether a message names what is wrong with a namespace.
pub open spec fn is_namespace_complaint(
    root_path: Seq<char>,
    prefix: Seq<char>,
    message: Seq<char>,
) -> bool {
    if root_path.len() == 0 || root_path[0] != '/' {
        message == "iceoryx2 root path must be absolute: "@ + root_path
    } else if !is_path_text(root_path) {
        message == "invalid iceoryx2 root path "@ + root_path
    } else if root_path.contains(':') && message == "invalid iceoryx2 root path "@ + root_path {
        true
    } else {
        message == "invalid iceoryx2 prefix "@ + prefix
    }
}

impl Namespace {
    /// The namespace with the given directory and prefix, if iceoryx2 accepts them.
    pub fn new(root_path: &str, prefix: &str) -> (result: Result<Namespace, UStatus>)
        ensures
            result is Ok ==> is_namespace(root_path@, prefix@),
            is_namespace(root_path@, prefix@) && is_portable(root_path@, prefix@) ==> result is Ok,
            match result {
                Ok(namespace) => namespace@ == (NamespaceView {
                    root_path: root_path@,
                    prefix: prefix@,
                }),
                Err(status) => status.code == UCode::InvalidArgument && is_namespace_complaint(
                    root_path@,
                    prefix@,
                    status.message@,
                ),
            },
    {
        if root_path.unicode_len() == 0 || root_path.get_char(0) != '/' {
            let message: String = String::from_str(
                "iceoryx2 root path must be absolute: ",
            ).concat(root_path);
            return Err(UStatus { code: UCode::InvalidArgument, message });
        }
        if !is_native_path(root_path) {
            let message: String = String::from_str("invalid iceoryx2 root path ").concat(root_path);
            return Err(UStatus { code: UCode::InvalidArgument, message });
        }
        if !is_native_file_name(prefix) {
            let message: String = String::from_str("invalid iceoryx2 prefix ").concat(prefix);
            return Err(UStatus { code: UCode::InvalidArgument, message });
        }
        Ok(Namespace { root_path: root_path.to_owned(), prefix: prefix.to_owned() })
    }

    /// The directory.
    pub fn root_path(&self) -> (path: &str)
        ensures
            path@ == self@.root_path,
    {
        self.root_path.as_str()
    }

    /// The prefix.
    pub fn prefix(&self) -> (prefix: &str)
        ensures
            prefix@ == self@.prefix,
    {
        self.prefix.as_str()
    }
}

impl Default for Iceoryx2PubSubConfig {
    fn default() -> (config: Self)
        ensures
            config.publisher_initial_max_slice_len == 1,
            config.publisher_allocation_strategy == AllocationStrategy::PowerOfTwo,
            config.pull_mismatch_queue_capacity == 64,
            config.pull_mismatch_queue_full_policy
                == Iceoryx2PullMismatchQueueFullPolicy::DropOldestAndReport,
            config.iceoryx2_config is None,
            config.namespace is None,
            config.publisher_readiness_minimum == 0,
            config.publisher_readiness_timeout is None,
    {
        Iceoryx2PubSubConfig {
            publisher_initial_max_slice_len: 1,
            publisher_allocation_strategy: AllocationStrategy::PowerOfTwo,
            pull_mismatch_queue_capacity: 64,
            pull_mismatch_queue_full_policy:
                Iceoryx2PullMismatchQueueFullPolicy::DropOldestAndReport,
            iceoryx2_config: None,
            namespace: None,
            publisher_readiness_minimum: 0,
            publisher_readiness_timeout: None,
        }
    }
}

impl Iceoryx2PubSubConfig {
    /// The default settings with data segments of a fixed size.
    pub fn static_allocation(max_slice_len: usize) -> (config: Self)
        ensures
            config.publisher_initial_max_slice_len == max_slice_len,
            config.publisher_allocation_strategy == AllocationStrategy::Static,
            config.pull_mismatch_queue_capacity == 64,
            config.pull_mismatch_queue_full_policy
                == Iceoryx2PullMismatchQueueFullPolicy::DropOldestAndReport,
            config.iceoryx2_config is None,
            config.namespace is None,
            config.publisher_readiness_minimum == 0,
            config.publisher_readiness_timeout is None,
    {
        let mut config = Self::default();
        config.publisher_initial_max_slice_len = max_slice_len;
        config.publisher_allocation_strategy = AllocationStrategy::Static;
        config
    }

    /// These settings with another capacity of the queues of mismatched samples.
    pub fn with_pull_mismatch_queue_capacity(self, value: usize) -> (config: Self)
        ensures
            config == (Iceoryx2PubSubConfig { pull_mismatch_queue_capacity: value, ..self }),
    {
        let mut config = self;
        config.pull_mismatch_queue_capacity = value;
        config
    }

    /// These settings with the given native settings, in place of a namespace.
    pub fn with_iceoryx2_config(self, value: Config) -> (config: Self)
        ensures
            config == (Iceoryx2PubSubConfig {
                iceoryx2_config: Some(value),
                namespace: None,
                ..self
            }),
    {
        let mut config = self;
        config.iceoryx2_config = Some(value);
        config.namespace = None;
        config
    }

    /// These settings with the given namespace, in place of native settings.
    pub fn with_namespace(self, root_path: &str, prefix: &str) -> (result: Result<Self, UStatus>)
        ensures
            result is Ok ==> is_namespace(root_path@, prefix@),
            is_namespace(root_path@, prefix@) && is_portable(root_path@, prefix@) ==> result is Ok,
            match result {
                Ok(config) => {
                    &&& config.namespace is Some
                    &&& config.namespace->0@ == (NamespaceView {
                        root_path: root_path@,
                        prefix: prefix@,
                    })
                    &&& config == (Iceoryx2PubSubConfig {
                        iceoryx2_config: None,
                        namespace: config.namespace,
                        ..self
                    })
                },
                Err(status) => status.code == UCode::InvalidArgument && is_namespace_complaint(
                    root_path@,
                    prefix@,
                    status.message@,
                ),
            },
    {
        let namespace = Namespace::new(root_path, prefix)?;
        let mut config = self;
        config.iceoryx2_config = None;
        config.namespace = Some(namespace);
        Ok(config)
    }

    /// These settings with the number of subscribers that a loan waits for, and the time that it
    /// waits at most.
    pub fn with_publisher_readiness(self, minimum: usize, timeout: Duration) -> (config: Self)
        ensures
            config == (Iceoryx2PubSubConfig {
                publisher_readiness_minimum: minimum,
                publisher_readiness_timeout: Some(timeout),
                ..self
            }),
    {
        let mut config = self;
        config.publisher_readiness_minimum = minimum;
        config.publisher_readiness_timeout = Some(timeout);
        config
    }
}

/// Whether `chosen` replaces the native directory as the environment asks for: by the text of the
/// variable if that is a path, else not at all; by the fallback where the variable has no text.
pub open spec fn is_root_choice(variable: EnvValue, chosen: Option<String>) -> bool {
    match variable {
        EnvValue::Text(text) => match chosen {
            Some(path) => path@ == text@ && is_path_text(text@),
            None => !is_path_text(text@) || text@.contains(':'),
        },
        _ => chosen is Some && chosen->0@ == "/tmp/up-iceoryx2"@,
    }
}

/// Whether `chosen` replaces the native prefix as the environment asks for.
pub open spec fn is_prefix_choice(variable: EnvValue, chosen: Option<String>) -> bool {
    match variable {
        EnvValue::Text(text) => match chosen {
            Some(prefix) => prefix@ == text@ && is_file_name_text(text@),
            None => !is_file_name_text(text@) || text@.contains(':'),
        },
        _ => chosen is Some && chosen->0@ == "up_iceoryx2_"@,
    }
}

/// The replacements that the environment asks for.
pub fn fallback_iceoryx2_config(root_path: &EnvValue, prefix: &EnvValue) -> (chosen:
    NamespaceOverride)
    ensures
        is_root_choice(*root_path, chosen.root_path),
        is_prefix_choice(*prefix, chosen.prefix),
{
    let root_path: Option<String> = match root_path {
        EnvValue::Text(text) => {
            if is_native_path(text.as_str()) {
                Some(text.clone())
            } else {
                None
            }
        },
        _ => Some(String::from_str("/tmp/up-iceoryx2")),
    };
    let prefix: Option<String> = match prefix {
        EnvValue::Text(text) => {
            if is_native_file_name(text.as_str()) {
                Some(text.clone())
            } else {
                None
            }
        },
        _ => Some(String::from_str("up_iceoryx2_")),
    };
    NamespaceOverride { root_path, prefix }
}

/// The replacements that the environment asks for, if it asks for any.
pub fn env_iceoryx2_config(root_path: &EnvValue, prefix: &EnvValue) -> (chosen: Option<
    NamespaceOverride,
>)
    ensures
        match chosen {
            Some(chosen) => !(*root_path is Unset && *prefix is Unset) && is_root_choice(
                *root_path,
                chosen.root_path,
            ) && is_prefix_choice(*prefix, chosen.prefix),
            None => *root_path is Unset && *prefix is Unset,
        },
{
    match (root_path, prefix) {
        (EnvValue::Unset, EnvValue::Unset) => None,
        _ => Some(fallback_iceoryx2_config(root_path, prefix)),
    }
}

/// Whether `settings` are those that the node of a transport is created with: those of its
/// configuration, else those that the environment asks for, else the native defaults.
pub open spec fn is_node_settings(
    config: Iceoryx2PubSubConfig,
    root_path: EnvValue,
    prefix: EnvValue,
    settings: NodeSettings,
) -> bool {
    match settings {
        NodeSettings::Explicit => config.iceoryx2_config is Some,
        NodeSettings::Overridden(chosen) => config.iceoryx2_config is None
            && match config.namespace {
            Some(namespace) => {
                &&& chosen.root_path is Some && chosen.root_path->0@ == namespace@.root_path
                &&& chosen.prefix is Some && chosen.prefix->0@ == namespace@.prefix
            },
            None => {
                &&& !(root_path is Unset && prefix is Unset)
                &&& is_root_choice(root_path, chosen.root_path)
                &&& is_prefix_choice(prefix, chosen.prefix)
            },
        },
        NodeSettings::Native => config.iceoryx2_config is None && config.namespace is None
            && root_path is Unset && prefix is Unset,
    }
}

/// The settings that the node of a transport is created with: those of its configuration, else
/// those of the environment, else the native defaults.
pub fn node_settings(
    config: &Iceoryx2PubSubConfig,
    root_path: &EnvValue,
    prefix: &EnvValue,
) -> (settings: NodeSettings)
    ensures
        is_node_settings(*config, *root_path, *prefix, settings),
{
    if config.iceoryx2_config.is_some() {
        return NodeSettings::Explicit;
    }
    match &config.namespace {
        Some(namespace) => NodeSettings::Overridden(
            NamespaceOverride {
                root_path: Some(namespace.root_path().to_owned()),
                prefix: Some(namespace.prefix().to_owned()),
            },
        ),
        None => match env_iceoryx2_config(root_path, prefix) {
            Some(chosen) => NodeSettings::Overridden(chosen),
            None => NodeSettings::Native,
        },
    }
}

/// The settings to try next where no node could be created with `failed`: only after the native
/// defaults there is something to try, the fallback.
pub fn node_settings_after_failure(
    failed: &NodeSettings,
    root_path: &EnvValue,
    prefix: &EnvValue,
) -> (settings: Option<NodeSettings>)
    ensures
        match settings {
            Some(settings) => *failed is Native && match settings {
                NodeSettings::Overridden(chosen) => is_root_choice(*root_path, chosen.root_path)
                    && is_prefix_choice(*prefix, chosen.prefix),
                _ => false,
            },
            None => !(*failed is Native),
        },
{
    match failed {
        NodeSettings::Native => Some(
            NodeSettings::Overridden(fallback_iceoryx2_config(root_path, prefix)),
        ),
        _ => None,
    }
}

/// A transport with a namespace uses that namespace, whatever the environment says.
pub proof fn namespace_overrules_environment(
    config: Iceoryx2PubSubConfig,
    root_path: EnvValue,
    prefix: EnvValue,
    settings: NodeSettings,
)
    requires
        config.iceoryx2_config is None,
        config.namespace is Some,
        is_node_settings(config, root_path, prefix, settings),
    ensures
        settings is Overridden,
        settings->Overridden_0.root_path is Some,
        settings->Overridden_0.prefix is Some,
        settings->Overridden_0.root_path->0@ == config.namespace->0@.root_path,
        settings->Overridden_0.prefix->0@ == config.namespace->0@.prefix,
{
}

/// Two transports with different namespaces have nodes with different settings, also in one
/// process.
pub proof fn namespaces_stay_apart(
    a: Iceoryx2PubSubConfig,
    b: Iceoryx2PubSubConfig,
    root_path: EnvValue,
    prefix: EnvValue,
    settings_a: NodeSettings,
    settings_b: NodeSettings,
)
    requires
        a.iceoryx2_config is None && a.namespace is Some,
        b.iceoryx2_config is None && b.namespace is Some,
        a.namespace->0@ != b.namespace->0@,
        is_node_settings(a, root_path, prefix, settings_a),
        is_node_settings(b, root_path, prefix, settings_b),
    ensures
        settings_a != settings_b,
{
}

/// A path is built of its characters: the empty text is one, and one more character keeps it one as
/// long as there are at most 255 and that character may stand in a path.
pub proof fn path_is_built_of_its_characters(text: Seq<char>, c: char)
    ensures
        is_path_text(Seq::empty()),
        is_path_text(text.push(c)) <==> is_path_text(text) && text.len() < 255 && is_path_char(c),
        is_path_char(c) <==> c >= ' ' && c as int <= 127 && !seq![
            '<',
            '>',
            '"',
            '|',
            '?',
            '*',
        ].contains(c),
{
    let banned = seq!['<', '>', '"', '|', '?', '*'];
    assert(banned[0] == '<' && banned[1] == '>' && banned[2] == '"');
    assert(banned[3] == '|' && banned[4] == '?' && banned[5] == '*');
    let longer = text.push(c);
    assert(longer[text.len() as int] == c);
    if is_path_text(longer) {
        assert forall|i: int| 0 <= i < text.len() implies is_path_char(#[trigger] text[i]) by {
            assert(longer[i] == text[i]);
        }
    }
}

/// A file name is a path of at least one character without a separator that is not made of one or
/// two dots alone.
pub proof fn file_name_is_a_path_without_separators(text: Seq<char>)
    ensures
        is_file_name_text(text) <==> is_path_text(text) && text.len() >= 1 && !text.contains('/')
            && !text.contains('\\') && text != seq!['.'] && text != seq!['.', '.'],
{
    reveal_strlit(".");
    reveal_strlit("..");
    assert("."@ =~= seq!['.']);
    assert(".."@ =~= seq!['.', '.']);
    if is_path_text(text) && !text.contains('/') && !text.contains('\\') {
        assert forall|i: int| 0 <= i < text.len() implies is_path_char(#[trigger] text[i])
            && text[i] != '/' && text[i] != '\\' by {
            assert(text.contains(text[i]));
        }
    }
}

/// A namespace is an absolute path and a file name; without a colon in either it is portable.
pub proof fn namespace_is_an_absolute_path_and_a_file_name(
    root_path: Seq<char>,
    prefix: Seq<char>,
)
    ensures
        is_namespace(root_path, prefix) ==> root_path.first() == '/' && root_path.len() >= 1
            && is_path_text(root_path) && is_file_name_text(prefix),
        is_path_text(root_path) && is_file_name_text(prefix) && root_path.len() >= 1
            && root_path.first() == '/' ==> is_namespace(root_path, prefix),
        is_portable(root_path, prefix) <==> !(root_path + prefix).contains(':'),
{
    let both = root_path + prefix;
    if root_path.contains(':') {
        let i = choose|i: int| 0 <= i < root_path.len() && root_path[i] == ':';
        assert(both[i] == ':');
    }
    if prefix.contains(':') {
        let i = choose|i: int| 0 <= i < prefix.len() && prefix[i] == ':';
        assert(both[root_path.len() + i] == ':');
    }
    if both.contains(':') {
        let i = choose|i: int| 0 <= i < both.len() && both[i] == ':';
        if i < root_path.len() {
            assert(root_path[i] == ':');
        } else {
            assert(prefix[i - root_path.len()] == ':');
        }
    }
}

/// What is wrong with a portable namespace is named with the part that it is wrong with, the first
/// one first: a path that is not absolute, a path of another form, a prefix.
pub proof fn first_fault_of_a_namespace_is_named(
    root_path: Seq<char>,
    prefix: Seq<char>,
    message: Seq<char>,
)
    requires
        is_namespace_complaint(root_path, prefix, message),
    ensures
        root_path.len() == 0 || root_path.first() != '/' ==> message
            == "iceoryx2 root path must be absolute: "@ + root_path,
        root_path.len() > 0 && root_path.first() == '/' && !is_path_text(root_path) ==> message
            == "invalid iceoryx2 root path "@ + root_path,
        root_path.len() > 0 && root_path.first() == '/' && is_path_text(root_path)
            && !root_path.contains(':') ==> message == "invalid iceoryx2 prefix "@ + prefix,
{
}

/// A variable with a text replaces the native setting by that text, if the text has the right form
/// and no colon; else it replaces nothing. A variable without a text stands for the fallback.
pub proof fn environment_replaces_by_its_text(
    variable: EnvValue,
    root_path: Option<String>,
    prefix: Option<String>,
)
    requires
        is_root_choice(variable, root_path),
        is_prefix_choice(variable, prefix),
    ensures
        variable is Text && is_path_text(variable->Text_0@) && !variable->Text_0@.contains(':')
            ==> root_path is Some && root_path->0@ == variable->Text_0@,
        variable is Text && !is_path_text(variable->Text_0@) ==> root_path is None,
        variable is Text && root_path is Some ==> root_path->0@ == variable->Text_0@,
        variable is Text && is_file_name_text(variable->Text_0@) && !variable->Text_0@.contains(
            ':',
        ) ==> prefix is Some && prefix->0@ == variable->Text_0@,
        variable is Text && !is_file_name_text(variable->Text_0@) ==> prefix is None,
        variable is Text && prefix is Some ==> prefix->0@ == variable->Text_0@,
        !(variable is Text) ==> root_path is Some && root_path->0@ == "/tmp/up-iceoryx2"@
            && prefix is Some && prefix->0@ == "up_iceoryx2_"@,
{
}

/// The settings of a node are those that the configuration carries, before everything else; without
/// settings and a namespace of the configuration they are the native ones exactly if neither
/// variable is set, and else have what the variables ask for.
pub proof fn settings_come_in_order(
    config: Iceoryx2PubSubConfig,
    root_path: EnvValue,
    prefix: EnvValue,
    settings: NodeSettings,
)
    requires
        is_node_settings(config, root_path, prefix, settings),
    ensures
        settings is Explicit <==> config.iceoryx2_config is Some,
        config.iceoryx2_config is None && config.namespace is None ==> (settings is Native
            <==> root_path is Unset && prefix is Unset),
        config.iceoryx2_config is None && config.namespace is None && settings is Overridden
            ==> is_root_choice(root_path, settings->Overridden_0.root_path) && is_prefix_choice(
            prefix,
            settings->Overridden_0.prefix,
        ),
{
}

} // verus!
