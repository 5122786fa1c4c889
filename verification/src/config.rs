//! The configuration of the controller, read from environment variables.

use vstd::prelude::*;

use crate::error::{configuration, AppError, AppErrorView};
use crate::numbers::{number_error_text, parse_unsigned, unsigned_fault, unsigned_number};
use crate::paths::{is_same_path, same_path};
use crate::text::{
    byte_len, byte_length, chars_of, control, copy_bytes, copy_option, has_prefix, is_control, join2,
    join3, lowercase, same, starts_with, text_of, to_ascii_lowercase, trim, trim_spec,
    view_option,
};

verus! {

broadcast use vstd::string::group_string_axioms;

/// How virtual machines are run.
#[derive(Clone, Copy, Debug, PartialEq, Eq, Structural)]
pub enum HypervisorMode {
    Auto,
    Libvirt,
    Mock,
}

/// The configuration of the controller.
#[derive(Debug, PartialEq, Eq)]
pub struct Config {
    /// Socket address that the server listens on.
    pub bind: String,
    pub public_url: String,
    pub database_path: String,
    pub template_dir: String,
    pub static_dir: String,
    /// Thirty-two bytes.
    pub master_key: Vec<u8>,
    pub bootstrap_admin: String,
    pub bootstrap_password: Option<String>,
    pub secure_cookies: bool,
    pub hypervisor_mode: HypervisorMode,
    pub libvirt_uri: String,
    pub vm_storage: String,
    pub iso_storage: String,
    pub cloud_init_storage: String,
    pub guest_tools_socket_dir: String,
    pub guest_tools_linux_x86_64_artifact: Option<String>,
    pub guest_tools_windows_x86_64_artifact: Option<String>,
    pub guest_tools_version: String,
    pub network_bridge: String,
    pub public_interface: Option<String>,
    /// Seconds.
    pub vnc_ttl: u64,
    /// Seconds.
    pub metrics_interval: u64,
}

/// What a [`Config`] holds, with texts as character sequences.
#[verifier::ext_equal]
pub struct ConfigView {
    pub bind: Seq<char>,
    pub public_url: Seq<char>,
    pub database_path: Seq<char>,
    pub template_dir: Seq<char>,
    pub static_dir: Seq<char>,
    pub master_key: Seq<u8>,
    pub bootstrap_admin: Seq<char>,
    pub bootstrap_password: Option<Seq<char>>,
    pub secure_cookies: bool,
    pub hypervisor_mode: HypervisorMode,
    pub libvirt_uri: Seq<char>,
    pub vm_storage: Seq<char>,
    pub iso_storage: Seq<char>,
    pub cloud_init_storage: Seq<char>,
    pub guest_tools_socket_dir: Seq<char>,
    pub guest_tools_linux_x86_64_artifact: Option<Seq<char>>,
    pub guest_tools_windows_x86_64_artifact: Option<Seq<char>>,
    pub guest_tools_version: Seq<char>,
    pub network_bridge: Seq<char>,
    pub public_interface: Option<Seq<char>>,
    pub vnc_ttl: u64,
    pub metrics_interval: u64,
}

impl View for Config {
    type V = ConfigView;

    open spec fn view(&self) -> ConfigView {
        ConfigView {
            bind: self.bind@,
            public_url: self.public_url@,
            database_path: self.database_path@,
            template_dir: self.template_dir@,
            static_dir: self.static_dir@,
            master_key: self.master_key@,
            bootstrap_admin: self.bootstrap_admin@,
            bootstrap_password: view_option(self.bootstrap_password),
            secure_cookies: self.secure_cookies,
            hypervisor_mode: self.hypervisor_mode,
            libvirt_uri: self.libvirt_uri@,
            vm_storage: self.vm_storage@,
            iso_storage: self.iso_storage@,
            cloud_init_storage: self.cloud_init_storage@,
            guest_tools_socket_dir: self.guest_tools_socket_dir@,
            guest_tools_linux_x86_64_artifact: view_option(self.guest_tools_linux_x86_64_artifact),
            guest_tools_windows_x86_64_artifact: view_option(self.guest_tools_windows_x86_64_artifact),
            guest_tools_version: self.guest_tools_version@,
            network_bridge: self.network_bridge@,
            public_interface: view_option(self.public_interface),
            vnc_ttl: self.vnc_ttl,
            metrics_interval: self.metrics_interval,
        }
    }
}

impl Clone for Config {
    fn clone(&self) -> (r: Config)
        ensures
            r@ == self@,
    {
        Config {
            bind: self.bind.clone(),
            public_url: self.public_url.clone(),
            database_path: self.database_path.clone(),
            template_dir: self.template_dir.clone(),
            static_dir: self.static_dir.clone(),
            master_key: copy_bytes(&self.master_key),
            bootstrap_admin: self.bootstrap_admin.clone(),
            bootstrap_password: copy_option(&self.bootstrap_password),
            secure_cookies: self.secure_cookies,
            hypervisor_mode: self.hypervisor_mode,
            libvirt_uri: self.libvirt_uri.clone(),
            vm_storage: self.vm_storage.clone(),
            iso_storage: self.iso_storage.clone(),
            cloud_init_storage: self.cloud_init_storage.clone(),
            guest_tools_socket_dir: self.guest_tools_socket_dir.clone(),
            guest_tools_linux_x86_64_artifact: copy_option(&self.guest_tools_linux_x86_64_artifact),
            guest_tools_windows_x86_64_artifact: copy_option(&self.guest_tools_windows_x86_64_artifact),
            guest_tools_version: self.guest_tools_version.clone(),
            network_bridge: self.network_bridge.clone(),
            public_interface: copy_option(&self.public_interface),
            vnc_ttl: self.vnc_ttl,
            metrics_interval: self.metrics_interval,
        }
    }
}

/// One environment variable.
#[derive(Debug, PartialEq, Eq)]
pub struct EnvironmentVariable {
    pub name: String,
    pub value: String,
}

/// What a [`EnvironmentVariable`] holds, with texts as character sequences.
#[verifier::ext_equal]
pub struct EnvironmentVariableView {
    pub name: Seq<char>,
    pub value: Seq<char>,
}

impl View for EnvironmentVariable {
    type V = EnvironmentVariableView;

    open spec fn view(&self) -> EnvironmentVariableView {
        EnvironmentVariableView {
            name: self.name@,
            value: self.value@,
        }
    }
}

impl Clone for EnvironmentVariable {
    fn clone(&self) -> (r: EnvironmentVariable)
        ensures
            r@ == self@,
    {
        EnvironmentVariable {
            name: self.name.clone(),
            value: self.value.clone(),
        }
    }
}

impl EnvironmentVariable {
    /// What a list of them holds.
    pub open spec fn list_view(list: Seq<EnvironmentVariable>) -> Seq<EnvironmentVariableView> {
        list.map_values(|x: EnvironmentVariable| x@)
    }

    /// A copy of a list of them.
    pub fn copy_of_list(list: &Vec<EnvironmentVariable>) -> (r: Vec<EnvironmentVariable>)
        ensures
            EnvironmentVariable::list_view(r@) == EnvironmentVariable::list_view(list@),
    {
        let mut r: Vec<EnvironmentVariable> = Vec::new();
        let mut i: usize = 0;
        while i < list.len()
            invariant
                i <= list@.len(),
                r@.len() == i,
                forall|j: int| 0 <= j < i ==> (#[trigger] r@[j])@ == list@[j]@,
            decreases list@.len() - i,
        {
            r.push(list[i].clone());
            i = i + 1;
        }
        proof {
            assert(EnvironmentVariable::list_view(r@) =~= EnvironmentVariable::list_view(list@));
        }
        r
    }
}

/// The value of a base64 text in the standard alphabet with padding.
pub uninterp spec fn base64_value(s: Seq<char>) -> Option<Seq<u8>>;

/// `base64::engine::general_purpose::STANDARD.decode`: the bytes that a base64 text
/// encodes, where it is one.
#[verifier::external_body]
fn decode_base64(s: &str) -> (r: Option<Vec<u8>>)
    ensures
        crate::text::view_bytes(r) == base64_value(s@),
{
    base64::Engine::decode(&base64::engine::general_purpose::STANDARD, s).ok()
}

/// The value of the first variable of that name, without white space at its ends, where
/// anything is left of it.
pub open spec fn env_spec(env: Seq<EnvironmentVariableView>, name: Seq<char>) -> Option<Seq<char>>
    decreases env.len(),
{
    if env.len() == 0 {
        None
    } else if env[0].name == name {
        if trim_spec(env[0].value).len() == 0 {
            None
        } else {
            Some(trim_spec(env[0].value))
        }
    } else {
        env_spec(env.drop_first(), name)
    }
}

/// The value of a variable, or a default.
pub open spec fn env_or_spec(
    env: Seq<EnvironmentVariableView>,
    name: Seq<char>,
    default: Seq<char>,
) -> Seq<char> {
    match env_spec(env, name) {
        Some(v) => v,
        None => default,
    }
}

/// The trimmed, non-empty value of an environment variable.
#[verifier::loop_isolation(false)]
pub fn non_empty_env(env: &Vec<EnvironmentVariable>, name: &str) -> (r: Option<String>)
    ensures
        view_option(r) == env_spec(EnvironmentVariable::list_view(env@), name@),
{
    let ghost all = EnvironmentVariable::list_view(env@);
    let mut i: usize = 0;
    proof {
        assert(all.skip(0) =~= all);
    }
    while i < env.len()
        invariant
            i <= env@.len(),
            env_spec(all, name@) == env_spec(all.skip(i as int), name@),
        decreases env@.len() - i,
    {
        proof {
            assert(all.skip(i as int)[0] == env@[i as int]@);
            assert(all.skip(i as int).drop_first() =~= all.skip(i as int + 1));
        }
        if same(env[i].name.as_str(), name) {
            let value = trim(env[i].value.as_str());
            if value.as_str().is_empty() {
                return None;
            }
            return Some(value);
        }
        i = i + 1;
    }
    None
}

/// The value of an environment variable, or a default.
pub fn env_or(env: &Vec<EnvironmentVariable>, name: &str, default: &str) -> (r: String)
    ensures
        r@ == env_or_spec(EnvironmentVariable::list_view(env@), name@, default@),
{
    match non_empty_env(env, name) {
        Some(v) => v,
        None => default.to_owned(),
    }
}

/// The number of seconds in an environment variable.
pub open spec fn seconds_spec(
    env: Seq<EnvironmentVariableView>,
    name: Seq<char>,
    default: Seq<char>,
) -> Result<u64, AppErrorView> {
    let text = env_or_spec(env, name, default);
    match unsigned_number(text, 10, u64::MAX as int) {
        Some(v) => Ok(v as u64),
        None => Err(
            AppErrorView::Configuration(
                "invalid "@ + name + ": "@ + number_error_text(
                    unsigned_fault(text, 10, u64::MAX as int),
                ),
            ),
        ),
    }
}

/// The number of seconds in an environment variable.
pub fn parse_env(env: &Vec<EnvironmentVariable>, name: &str, default: &str) -> (r: Result<
    u64,
    AppError,
>)
    ensures
        match r {
            Ok(v) => seconds_spec(EnvironmentVariable::list_view(env@), name@, default@) == Ok::<
                u64,
                AppErrorView,
            >(v),
            Err(e) => seconds_spec(EnvironmentVariable::list_view(env@), name@, default@) == Err::<
                u64,
                AppErrorView,
            >(e@),
        },
{
    let text = env_or(env, name, default);
    match parse_unsigned(text.as_str(), 10, u64::MAX) {
        Ok(v) => Ok(v),
        Err(e) => {
            let mut message = join3("invalid ", name, ": ");
            message.append(e.message());
            Err(AppError::Configuration(message))
        },
    }
}

/// A truth value in an environment variable.
pub open spec fn truth_spec(
    env: Seq<EnvironmentVariableView>,
    name: Seq<char>,
    default: bool,
) -> Result<bool, AppErrorView> {
    match env_spec(env, name) {
        None => Ok(default),
        Some(v) => {
            let word = lowercase(v);
            if word == "1"@ || word == "true"@ || word == "yes"@ || word == "on"@ {
                Ok(true)
            } else if word == "0"@ || word == "false"@ || word == "no"@ || word == "off"@ {
                Ok(false)
            } else {
                Err(AppErrorView::Configuration(name + " must be true or false"@))
            }
        },
    }
}

/// A truth value in an environment variable.
pub fn parse_bool_env(env: &Vec<EnvironmentVariable>, name: &str, default: bool) -> (r: Result<
    bool,
    AppError,
>)
    ensures
        match r {
            Ok(v) => truth_spec(EnvironmentVariable::list_view(env@), name@, default) == Ok::<
                bool,
                AppErrorView,
            >(v),
            Err(e) => truth_spec(EnvironmentVariable::list_view(env@), name@, default) == Err::<
                bool,
                AppErrorView,
            >(e@),
        },
{
    match non_empty_env(env, name) {
        None => Ok(default),
        Some(v) => {
            let word = to_ascii_lowercase(v.as_str());
            let w = word.as_str();
            if same(w, "1") || same(w, "true") || same(w, "yes") || same(w, "on") {
                Ok(true)
            } else if same(w, "0") || same(w, "false") || same(w, "no") || same(w, "off") {
                Ok(false)
            } else {
                Err(AppError::Configuration(join2(name, " must be true or false")))
            }
        },
    }
}

/// The hypervisor that a word names.
pub open spec fn hypervisor_spec(value: Seq<char>) -> Result<HypervisorMode, AppErrorView> {
    let word = lowercase(value);
    if word == "auto"@ {
        Ok(HypervisorMode::Auto)
    } else if word == "libvirt"@ || word == "kvm"@ {
        Ok(HypervisorMode::Libvirt)
    } else if word == "mock"@ {
        Ok(HypervisorMode::Mock)
    } else {
        Err(
            AppErrorView::Configuration(
                "VEXA_HYPERVISOR must be auto, libvirt, or mock; got "@ + word,
            ),
        )
    }
}

/// The hypervisor that a word names.
pub fn parse_hypervisor(value: &str) -> (r: Result<HypervisorMode, AppError>)
    ensures
        match r {
            Ok(m) => hypervisor_spec(value@) == Ok::<HypervisorMode, AppErrorView>(m),
            Err(e) => hypervisor_spec(value@) == Err::<HypervisorMode, AppErrorView>(e@),
        },
{
    let word = to_ascii_lowercase(value);
    let w = word.as_str();
    if same(w, "auto") {
        Ok(HypervisorMode::Auto)
    } else if same(w, "libvirt") || same(w, "kvm") {
        Ok(HypervisorMode::Libvirt)
    } else if same(w, "mock") {
        Ok(HypervisorMode::Mock)
    } else {
        Err(
            AppError::Configuration(
                join2("VEXA_HYPERVISOR must be auto, libvirt, or mock; got ", w),
            ),
        )
    }
}

/// An artifact is set and lies at a path.
pub open spec fn artifact_is(artifact: Option<Seq<char>>, path: Seq<char>) -> bool {
    artifact is Some && same_path(artifact->0, path)
}

fn is_artifact(artifact: &Option<String>, path: &str) -> (r: bool)
    ensures
        r == artifact_is(view_option(*artifact), path@),
{
    match artifact {
        Some(set) => is_same_path(set.as_str(), path),
        None => false,
    }
}

/// The guest tools version that is expected: that of the running release where both
/// artifacts are the bundled ones, else the one that was set.
pub open spec fn guest_tools_version_spec(
    linux_artifact: Option<Seq<char>>,
    windows_artifact: Option<Seq<char>>,
    explicit_version: Option<Seq<char>>,
    running: Seq<char>,
) -> Seq<char> {
    let bundled = artifact_is(
        linux_artifact,
        "/opt/vexa-vm/current/guest-tools/vexa-guest-tools-linux-x86_64"@,
    ) && artifact_is(
        windows_artifact,
        "/opt/vexa-vm/current/guest-tools/vexa-guest-tools-windows-x86_64.exe"@,
    );
    if bundled {
        running
    } else {
        match explicit_version {
            Some(v) => v,
            None => running,
        }
    }
}

/// The guest tools version that is expected; `running` is that of the running release.
pub fn configured_guest_tools_version(
    linux_artifact: &Option<String>,
    windows_artifact: &Option<String>,
    explicit_version: Option<String>,
    running: &str,
) -> (r: String)
    ensures
        r@ == guest_tools_version_spec(
            view_option(*linux_artifact),
            view_option(*windows_artifact),
            view_option(explicit_version),
            running@,
        ),
{
    let bundled = is_artifact(
        linux_artifact,
        "/opt/vexa-vm/current/guest-tools/vexa-guest-tools-linux-x86_64",
    ) && is_artifact(
        windows_artifact,
        "/opt/vexa-vm/current/guest-tools/vexa-guest-tools-windows-x86_64.exe",
    );
    if bundled {
        running.to_owned()
    } else {
        match explicit_version {
            Some(v) => v,
            None => running.to_owned(),
        }
    }
}

/// The master key that a variable holds.
pub open spec fn master_key_spec(raw: Option<Seq<char>>) -> Result<Seq<u8>, AppErrorView> {
    match raw {
        None => Err(
            AppErrorView::Configuration(
                "VEXA_MASTER_KEY is required; generate it with `openssl rand -base64 32`"@,
            ),
        ),
        Some(text) => match base64_value(trim_spec(text)) {
            None => Err(
                AppErrorView::Configuration(
                    "VEXA_MASTER_KEY must be valid base64 for exactly 32 bytes"@,
                ),
            ),
            Some(bytes) => key_bytes_spec(bytes),
        },
    }
}

/// The master key that decoded bytes are.
pub open spec fn key_bytes_spec(bytes: Seq<u8>) -> Result<Seq<u8>, AppErrorView> {
    if bytes.len() == 32 {
        Ok(bytes)
    } else {
        Err(AppErrorView::Configuration("VEXA_MASTER_KEY must decode to exactly 32 bytes"@))
    }
}

/// The master key that decoded bytes are: exactly thirty-two.
pub fn check_master_key(decoded: Vec<u8>) -> (r: Result<Vec<u8>, AppError>)
    ensures
        match r {
            Ok(key) => key_bytes_spec(decoded@) == Ok::<Seq<u8>, AppErrorView>(key@),
            Err(e) => key_bytes_spec(decoded@) == Err::<Seq<u8>, AppErrorView>(e@),
        },
{
    if decoded.len() == 32 {
        Ok(decoded)
    } else {
        Err(configuration("VEXA_MASTER_KEY must decode to exactly 32 bytes"))
    }
}

/// The master key of the environment.
pub fn load_master_key(raw: Option<String>) -> (r: Result<Vec<u8>, AppError>)
    ensures
        match r {
            Ok(key) => master_key_spec(view_option(raw)) == Ok::<Seq<u8>, AppErrorView>(key@)
                && key@.len() == 32,
            Err(e) => master_key_spec(view_option(raw)) == Err::<Seq<u8>, AppErrorView>(e@),
        },
{
    let text = match raw {
        None => {
            return Err(
                configuration(
                    "VEXA_MASTER_KEY is required; generate it with `openssl rand -base64 32`",
                ),
            );
        },
        Some(text) => text,
    };
    let trimmed = trim(text.as_str());
    match decode_base64(trimmed.as_str()) {
        None => Err(configuration("VEXA_MASTER_KEY must be valid base64 for exactly 32 bytes")),
        Some(decoded) => check_master_key(decoded),
    }
}

/// `s` without the slashes at its back.
pub open spec fn without_slashes(s: Seq<char>) -> Seq<char>
    decreases s.len(),
{
    if s.len() > 0 && s.last() == '/' {
        without_slashes(s.drop_last())
    } else {
        s
    }
}

fn trim_slashes(s: &str) -> (r: String)
    ensures
        r@ == without_slashes(s@),
{
    let v = chars_of(s);
    let mut end: usize = v.len();
    proof {
        assert(v@.take(v@.len() as int) =~= v@);
    }
    while end > 0 && v[end - 1] == '/'
        invariant
            end <= v@.len(),
            without_slashes(v@.take(end as int)) == without_slashes(v@),
        decreases end,
    {
        proof {
            assert(v@.take(end as int).drop_last() =~= v@.take(end as int - 1));
        }
        end = end - 1;
    }
    proof {
        assert(v@.subrange(0, end as int) =~= v@.take(end as int));
    }
    text_of(&v, 0, end)
}

/// A text of at most 64 bytes without control characters.
pub open spec fn printable_version(s: Seq<char>) -> bool {
    &&& 0 < s.len()
    &&& byte_len(s) <= 64
    &&& forall|i: int| 0 <= i < s.len() ==> !is_control(#[trigger] s[i])
}

fn is_printable_version(s: &str) -> (r: bool)
    ensures
        r == printable_version(s@),
{
    if s.is_empty() || byte_length(s) > 64 {
        return false;
    }
    let v = chars_of(s);
    let mut i: usize = 0;
    while i < v.len()
        invariant
            i <= v@.len(),
            v@ == s@,
            forall|j: int| 0 <= j < i ==> !is_control(#[trigger] v@[j]),
        decreases v@.len() - i,
    {
        if control(v[i]) {
            proof {
                assert(is_control(s@[i as int]));
            }
            return false;
        }
        i = i + 1;
    }
    true
}

/// The first thing that is wrong with a configuration.
pub open spec fn config_fault(c: ConfigView) -> Option<Seq<char>> {
    if c.vnc_ttl != 600 {
        Some("VEXA_VNC_TTL_SECONDS must be exactly 600 seconds"@)
    } else if c.metrics_interval < 5 {
        Some("VEXA_METRICS_INTERVAL_SECONDS cannot be lower than 5"@)
    } else if !starts_with(c.public_url, "http://"@) && !starts_with(c.public_url, "https://"@) {
        Some("VEXA_PUBLIC_URL must start with http:// or https://"@)
    } else if !(c.guest_tools_socket_dir.len() > 0 && c.guest_tools_socket_dir[0] == '/') {
        Some("VEXA_GUEST_TOOLS_SOCKET_DIR must be an absolute path"@)
    } else if !printable_version(c.guest_tools_version) {
        Some("VEXA_GUEST_TOOLS_VERSION must contain 1-64 printable characters"@)
    } else {
        None
    }
}

/// The configuration that an environment describes, before it is checked as a whole.
/// `bind` is the socket address that VEXA_BIND names, or why it names none.
pub open spec fn config_from(
    env: Seq<EnvironmentVariableView>,
    bind: Result<Seq<char>, Seq<char>>,
    running: Seq<char>,
) -> Result<ConfigView, AppErrorView> {
    match bind {
        Err(e) => Err(AppErrorView::Configuration("invalid VEXA_BIND: "@ + e)),
        Ok(bind) => {
            let public_url = env_or_spec(env, "VEXA_PUBLIC_URL"@, "http://"@ + bind);
            match truth_spec(
                env,
                "VEXA_SECURE_COOKIES"@,
                starts_with(public_url, "https://"@),
            ) {
                Err(e) => Err(e),
                Ok(secure_cookies) => match master_key_spec(env_spec(env, "VEXA_MASTER_KEY"@)) {
                    Err(e) => Err(e),
                    Ok(master_key) => match hypervisor_spec(
                        env_or_spec(env, "VEXA_HYPERVISOR"@, "mock"@),
                    ) {
                        Err(e) => Err(e),
                        Ok(hypervisor_mode) => match seconds_spec(
                            env,
                            "VEXA_VNC_TTL_SECONDS"@,
                            "600"@,
                        ) {
                            Err(e) => Err(e),
                            Ok(vnc_ttl) => match seconds_spec(
                                env,
                                "VEXA_METRICS_INTERVAL_SECONDS"@,
                                "15"@,
                            ) {
                                Err(e) => Err(e),
                                Ok(metrics_interval) => Ok(
                                    config_parts(
                                        env,
                                        bind,
                                        public_url,
                                        secure_cookies,
                                        master_key,
                                        hypervisor_mode,
                                        vnc_ttl,
                                        metrics_interval,
                                        running,
                                    ),
                                ),
                            },
                        },
                    },
                },
            }
        },
    }
}

/// The configuration that is put together from its checked parts and the plain variables.
pub open spec fn config_parts(
    env: Seq<EnvironmentVariableView>,
    bind: Seq<char>,
    public_url: Seq<char>,
    secure_cookies: bool,
    master_key: Seq<u8>,
    hypervisor_mode: HypervisorMode,
    vnc_ttl: u64,
    metrics_interval: u64,
    running: Seq<char>,
) -> ConfigView {
    let linux = env_spec(env, "VEXA_GUEST_TOOLS_LINUX_X86_64_ARTIFACT"@);
    let windows = env_spec(env, "VEXA_GUEST_TOOLS_WINDOWS_X86_64_ARTIFACT"@);
    ConfigView {
        bind,
        public_url: without_slashes(public_url),
        database_path: env_or_spec(env, "VEXA_DATABASE"@, "data/vexa.db"@),
        template_dir: env_or_spec(env, "VEXA_TEMPLATE_DIR"@, "templates"@),
        static_dir: env_or_spec(env, "VEXA_STATIC_DIR"@, "static"@),
        master_key,
        bootstrap_admin: env_or_spec(env, "VEXA_BOOTSTRAP_ADMIN"@, "admin"@),
        bootstrap_password: env_spec(env, "VEXA_BOOTSTRAP_PASSWORD"@),
        secure_cookies,
        hypervisor_mode,
        libvirt_uri: env_or_spec(env, "VEXA_LIBVIRT_URI"@, "qemu:///system"@),
        vm_storage: env_or_spec(env, "VEXA_VM_STORAGE"@, "data/vms"@),
        iso_storage: env_or_spec(env, "VEXA_ISO_STORAGE"@, "data/isos"@),
        cloud_init_storage: env_or_spec(env, "VEXA_CLOUD_INIT_STORAGE"@, "data/cloud-init"@),
        guest_tools_socket_dir: env_or_spec(
            env,
            "VEXA_GUEST_TOOLS_SOCKET_DIR"@,
            "/var/lib/vexa-vm/guest-tools"@,
        ),
        guest_tools_linux_x86_64_artifact: linux,
        guest_tools_windows_x86_64_artifact: windows,
        guest_tools_version: guest_tools_version_spec(
            linux,
            windows,
            env_spec(env, "VEXA_GUEST_TOOLS_VERSION"@),
            running,
        ),
        network_bridge: env_or_spec(env, "VEXA_NETWORK_BRIDGE"@, "virbr0"@),
        public_interface: env_spec(env, "VEXA_PUBLIC_INTERFACE"@),
        vnc_ttl,
        metrics_interval,
    }
}

/// The configuration that an environment describes.
pub open spec fn checked_config(c: Result<ConfigView, AppErrorView>) -> Result<
    ConfigView,
    AppErrorView,
> {
    match c {
        Err(e) => Err(e),
        Ok(c) => match config_fault(c) {
            Some(text) => Err(AppErrorView::Configuration(text)),
            None => Ok(c),
        },
    }
}

/// The outcome of parsing a socket address.
pub open spec fn bind_view(bind: Result<String, String>) -> Result<Seq<char>, Seq<char>> {
    match bind {
        Ok(s) => Ok(s@),
        Err(e) => Err(e@),
    }
}

impl Config {
    /// The configuration that an environment describes. `bind` is the socket address that
    /// VEXA_BIND names, or why it names none; `running` is the version of the running
    /// release.
    pub fn from_env(
        env: &Vec<EnvironmentVariable>,
        bind: Result<String, String>,
        running: &str,
    ) -> (r: Result<Config, AppError>)
        ensures
            match r {
                Ok(c) => checked_config(
                    config_from(
                        EnvironmentVariable::list_view(env@),
                        bind_view(bind),
                        running@,
                    ),
                ) == Ok::<ConfigView, AppErrorView>(c@),
                Err(e) => checked_config(
                    config_from(
                        EnvironmentVariable::list_view(env@),
                        bind_view(bind),
                        running@,
                    ),
                ) == Err::<ConfigView, AppErrorView>(e@),
            },
    {
        let bind = match bind {
            Ok(bind) => bind,
            Err(e) => {
                return Err(AppError::Configuration(join2("invalid VEXA_BIND: ", e.as_str())));
            },
        };
        let default_url = join2("http://", bind.as_str());
        let public_url = env_or(env, "VEXA_PUBLIC_URL", default_url.as_str());
        let secure_cookies = match parse_bool_env(
            env,
            "VEXA_SECURE_COOKIES",
            has_prefix(public_url.as_str(), "https://"),
        ) {
            Ok(v) => v,
            Err(e) => {
                return Err(e);
            },
        };
        let master_key = match load_master_key(non_empty_env(env, "VEXA_MASTER_KEY")) {
            Ok(v) => v,
            Err(e) => {
                return Err(e);
            },
        };
        let word = env_or(env, "VEXA_HYPERVISOR", "mock");
        let hypervisor_mode = match parse_hypervisor(word.as_str()) {
            Ok(v) => v,
            Err(e) => {
                return Err(e);
            },
        };
        let linux = non_empty_env(env, "VEXA_GUEST_TOOLS_LINUX_X86_64_ARTIFACT");
        let windows = non_empty_env(env, "VEXA_GUEST_TOOLS_WINDOWS_X86_64_ARTIFACT");
        let guest_tools_version = configured_guest_tools_version(
            &linux,
            &windows,
            non_empty_env(env, "VEXA_GUEST_TOOLS_VERSION"),
            running,
        );
        let vnc_ttl = match parse_env(env, "VEXA_VNC_TTL_SECONDS", "600") {
            Ok(v) => v,
            Err(e) => {
                return Err(e);
            },
        };
        let metrics_interval = match parse_env(env, "VEXA_METRICS_INTERVAL_SECONDS", "15") {
            Ok(v) => v,
            Err(e) => {
                return Err(e);
            },
        };
        let config = Config {
            bind,
            public_url: trim_slashes(public_url.as_str()),
            database_path: env_or(env, "VEXA_DATABASE", "data/vexa.db"),
            template_dir: env_or(env, "VEXA_TEMPLATE_DIR", "templates"),
            static_dir: env_or(env, "VEXA_STATIC_DIR", "static"),
            master_key,
            bootstrap_admin: env_or(env, "VEXA_BOOTSTRAP_ADMIN", "admin"),
            bootstrap_password: non_empty_env(env, "VEXA_BOOTSTRAP_PASSWORD"),
            secure_cookies,
            hypervisor_mode,
            libvirt_uri: env_or(env, "VEXA_LIBVIRT_URI", "qemu:///system"),
            vm_storage: env_or(env, "VEXA_VM_STORAGE", "data/vms"),
            iso_storage: env_or(env, "VEXA_ISO_STORAGE", "data/isos"),
            cloud_init_storage: env_or(env, "VEXA_CLOUD_INIT_STORAGE", "data/cloud-init"),
            guest_tools_socket_dir: env_or(
                env,
                "VEXA_GUEST_TOOLS_SOCKET_DIR",
                "/var/lib/vexa-vm/guest-tools",
            ),
            guest_tools_linux_x86_64_artifact: linux,
            guest_tools_windows_x86_64_artifact: windows,
            guest_tools_version,
            network_bridge: env_or(env, "VEXA_NETWORK_BRIDGE", "virbr0"),
            public_interface: non_empty_env(env, "VEXA_PUBLIC_INTERFACE"),
            vnc_ttl,
            metrics_interval,
        };
        config.validate()
    }

    /// Accepts a configuration that has no fault.
    pub fn validate(self) -> (r: Result<Config, AppError>)
        ensures
            match r {
                Ok(c) => config_fault(self@) is None && c@ == self@,
                Err(e) => config_fault(self@) matches Some(text) && e@
                    == AppErrorView::Configuration(text),
            },
    {
        if self.vnc_ttl != 600 {
            return Err(configuration("VEXA_VNC_TTL_SECONDS must be exactly 600 seconds"));
        }
        if self.metrics_interval < 5 {
            return Err(configuration("VEXA_METRICS_INTERVAL_SECONDS cannot be lower than 5"));
        }
        if !has_prefix(self.public_url.as_str(), "http://") && !has_prefix(
            self.public_url.as_str(),
            "https://",
        ) {
            return Err(configuration("VEXA_PUBLIC_URL must start with http:// or https://"));
        }
        let dir = self.guest_tools_socket_dir.as_str();
        if dir.unicode_len() == 0 || dir.get_char(0) != '/' {
            return Err(configuration("VEXA_GUEST_TOOLS_SOCKET_DIR must be an absolute path"));
        }
        if !is_printable_version(self.guest_tools_version.as_str()) {
            return Err(
                configuration("VEXA_GUEST_TOOLS_VERSION must contain 1-64 printable characters"),
            );
        }
        Ok(self)
    }
}

/// Every configuration that is accepted lets console tokens live exactly ten minutes.
pub proof fn console_tokens_live_ten_minutes(
    env: Seq<EnvironmentVariableView>,
    bind: Result<Seq<char>, Seq<char>>,
    running: Seq<char>,
)
    requires
        checked_config(config_from(env, bind, running)) is Ok,
    ensures
        checked_config(config_from(env, bind, running))->Ok_0.vnc_ttl == 600,
        checked_config(config_from(env, bind, running))->Ok_0.metrics_interval >= 5,
{
}

/// What the environment says of a name: the value of the first variable with it, without
/// surrounding white space, or nothing where there is none or it is blank.
pub open spec fn says(
    env: Seq<EnvironmentVariableView>,
    name: Seq<char>,
    value: Option<Seq<char>>,
) -> bool {
    ||| value is None && forall|k: int| 0 <= k < env.len() ==> (#[trigger] env[k]).name != name
    ||| exists|k: int|
        0 <= k < env.len() && (#[trigger] env[k]).name == name && (forall|j: int|
            0 <= j < k ==> (#[trigger] env[j]).name != name) && (if trim_spec(env[k].value).len()
            == 0 {
            value is None
        } else {
            value == Some(trim_spec(env[k].value))
        })
}

/// A value is what the environment says of a name, or else a given one.
pub open spec fn says_or(
    env: Seq<EnvironmentVariableView>,
    name: Seq<char>,
    default: Seq<char>,
    value: Seq<char>,
) -> bool {
    says(env, name, Some(value)) || (says(env, name, None) && value == default)
}

/// The environment is read as it is said.
pub proof fn what_the_environment_says(env: Seq<EnvironmentVariableView>, name: Seq<char>)
    ensures
        says(env, name, env_spec(env, name)),
    decreases env.len(),
{
    if env.len() > 0 && env[0].name != name {
        let rest = env.drop_first();
        what_the_environment_says(rest, name);
        let value = env_spec(rest, name);
        if value is None && forall|k: int|
            0 <= k < rest.len() ==> (#[trigger] rest[k]).name != name {
            assert forall|k: int| 0 <= k < env.len() implies (#[trigger] env[k]).name != name by {
                if k > 0 {
                    assert(rest[k - 1] == env[k]);
                }
            }
        } else {
            let k = choose|k: int|
                0 <= k < rest.len() && (#[trigger] rest[k]).name == name && (forall|j: int|
                    0 <= j < k ==> (#[trigger] rest[j]).name != name) && (if trim_spec(
                    rest[k].value,
                ).len() == 0 {
                    value is None
                } else {
                    value == Some(trim_spec(rest[k].value))
                });
            assert(env[k + 1] == rest[k]);
            assert forall|j: int| 0 <= j < k + 1 implies (#[trigger] env[j]).name != name by {
                if j > 0 {
                    assert(rest[j - 1] == env[j]);
                }
            }
        }
    } else if env.len() > 0 {
        assert(env[0].name == name);
    }
}

/// A configuration holds what the environment says, each part under its own name, and what is
/// usual where the environment says nothing.
pub proof fn a_configuration_holds_what_the_environment_says(
    env: Seq<EnvironmentVariableView>,
    bind: Seq<char>,
    running: Seq<char>,
)
    requires
        checked_config(config_from(env, Ok(bind), running)) is Ok,
    ensures
        ({
            let c = checked_config(config_from(env, Ok(bind), running))->Ok_0;
            &&& c.bind == bind
            &&& says_or(env, "VEXA_DATABASE"@, "data/vexa.db"@, c.database_path)
            &&& says_or(env, "VEXA_TEMPLATE_DIR"@, "templates"@, c.template_dir)
            &&& says_or(env, "VEXA_STATIC_DIR"@, "static"@, c.static_dir)
            &&& says_or(env, "VEXA_BOOTSTRAP_ADMIN"@, "admin"@, c.bootstrap_admin)
            &&& says(env, "VEXA_BOOTSTRAP_PASSWORD"@, c.bootstrap_password)
            &&& says_or(env, "VEXA_LIBVIRT_URI"@, "qemu:///system"@, c.libvirt_uri)
            &&& says_or(env, "VEXA_VM_STORAGE"@, "data/vms"@, c.vm_storage)
            &&& says_or(env, "VEXA_ISO_STORAGE"@, "data/isos"@, c.iso_storage)
            &&& says_or(env, "VEXA_CLOUD_INIT_STORAGE"@, "data/cloud-init"@, c.cloud_init_storage)
            &&& says_or(
                env,
                "VEXA_GUEST_TOOLS_SOCKET_DIR"@,
                "/var/lib/vexa-vm/guest-tools"@,
                c.guest_tools_socket_dir,
            )
            &&& says(
                env,
                "VEXA_GUEST_TOOLS_LINUX_X86_64_ARTIFACT"@,
                c.guest_tools_linux_x86_64_artifact,
            )
            &&& says(
                env,
                "VEXA_GUEST_TOOLS_WINDOWS_X86_64_ARTIFACT"@,
                c.guest_tools_windows_x86_64_artifact,
            )
            &&& says_or(env, "VEXA_NETWORK_BRIDGE"@, "virbr0"@, c.network_bridge)
            &&& says(env, "VEXA_PUBLIC_INTERFACE"@, c.public_interface)
            &&& c.master_key.len() == 32
            &&& c.vnc_ttl == 600
            &&& c.metrics_interval >= 5
            &&& c.guest_tools_socket_dir[0] == '/'
            &&& exists|url: Seq<char>| #[trigger]
                says_or(env, "VEXA_PUBLIC_URL"@, "http://"@ + bind, url) && c.public_url
                    == without_slashes(url) && (says(env, "VEXA_SECURE_COOKIES"@, None)
                    ==> c.secure_cookies == starts_with(url, "https://"@))
        }),
{
    let c = checked_config(config_from(env, Ok(bind), running))->Ok_0;
    what_the_environment_says(env, "VEXA_DATABASE"@);
    what_the_environment_says(env, "VEXA_TEMPLATE_DIR"@);
    what_the_environment_says(env, "VEXA_STATIC_DIR"@);
    what_the_environment_says(env, "VEXA_BOOTSTRAP_ADMIN"@);
    what_the_environment_says(env, "VEXA_BOOTSTRAP_PASSWORD"@);
    what_the_environment_says(env, "VEXA_LIBVIRT_URI"@);
    what_the_environment_says(env, "VEXA_VM_STORAGE"@);
    what_the_environment_says(env, "VEXA_ISO_STORAGE"@);
    what_the_environment_says(env, "VEXA_CLOUD_INIT_STORAGE"@);
    what_the_environment_says(env, "VEXA_GUEST_TOOLS_SOCKET_DIR"@);
    what_the_environment_says(env, "VEXA_GUEST_TOOLS_LINUX_X86_64_ARTIFACT"@);
    what_the_environment_says(env, "VEXA_GUEST_TOOLS_WINDOWS_X86_64_ARTIFACT"@);
    what_the_environment_says(env, "VEXA_NETWORK_BRIDGE"@);
    what_the_environment_says(env, "VEXA_PUBLIC_INTERFACE"@);
    what_the_environment_says(env, "VEXA_PUBLIC_URL"@);
    what_the_environment_says(env, "VEXA_SECURE_COOKIES"@);
    let url = env_or_spec(env, "VEXA_PUBLIC_URL"@, "http://"@ + bind);
    assert(says_or(env, "VEXA_PUBLIC_URL"@, "http://"@ + bind, url));
    one_thing_is_said(env, "VEXA_SECURE_COOKIES"@, env_spec(env, "VEXA_SECURE_COOKIES"@), None);
}

proof fn one_thing_is_said(
    env: Seq<EnvironmentVariableView>,
    name: Seq<char>,
    a: Option<Seq<char>>,
    b: Option<Seq<char>>,
)
    requires
        says(env, name, a),
    ensures
        says(env, name, b) ==> a == b,
{
    if says(env, name, b) && a != b {
        if exists|k: int| 0 <= k < env.len() && (#[trigger] env[k]).name == name {
            let j = choose|k: int|
                0 <= k < env.len() && (#[trigger] env[k]).name == name && (forall|j: int|
                    0 <= j < k ==> (#[trigger] env[j]).name != name) && (if trim_spec(
                    env[k].value,
                ).len() == 0 {
                    a is None
                } else {
                    a == Some(trim_spec(env[k].value))
                });
            let k = choose|k: int|
                0 <= k < env.len() && (#[trigger] env[k]).name == name && (forall|j: int|
                    0 <= j < k ==> (#[trigger] env[j]).name != name) && (if trim_spec(
                    env[k].value,
                ).len() == 0 {
                    b is None
                } else {
                    b == Some(trim_spec(env[k].value))
                });
            assert(j == k) by {
                if j < k {
                    assert(env[j].name != name);
                }
                if k < j {
                    assert(env[k].name != name);
                }
            }
        }
    }
}

/// A word for yes or no is read whatever its case; any other is refused, and without one the
/// usual holds.
pub proof fn words_for_yes_and_no(
    env: Seq<EnvironmentVariableView>,
    name: Seq<char>,
    default: bool,
    word: Seq<char>,
)
    ensures
        says(env, name, None) ==> truth_spec(env, name, default) == Ok::<bool, AppErrorView>(
            default,
        ),
        says(env, name, Some(word)) && (lowercase(word) == "1"@ || lowercase(word) == "true"@
            || lowercase(word) == "yes"@ || lowercase(word) == "on"@) ==> truth_spec(
            env,
            name,
            default,
        ) == Ok::<bool, AppErrorView>(true),
        says(env, name, Some(word)) && (lowercase(word) == "0"@ || lowercase(word) == "false"@
            || lowercase(word) == "no"@ || lowercase(word) == "off"@) ==> truth_spec(
            env,
            name,
            default,
        ) == Ok::<bool, AppErrorView>(false),
        says(env, name, Some(word)) && truth_spec(env, name, default) is Ok ==> lowercase(word)
            == "1"@ || lowercase(word) == "true"@ || lowercase(word) == "yes"@ || lowercase(word)
            == "on"@ || lowercase(word) == "0"@ || lowercase(word) == "false"@ || lowercase(word)
            == "no"@ || lowercase(word) == "off"@,
{
    what_the_environment_says(env, name);
    one_thing_is_said(env, name, env_spec(env, name), None);
    one_thing_is_said(env, name, env_spec(env, name), Some(word));
    reveal_strlit("1");
    reveal_strlit("true");
    reveal_strlit("yes");
    reveal_strlit("on");
    reveal_strlit("0");
    reveal_strlit("false");
    reveal_strlit("no");
    reveal_strlit("off");
    assert("1"@[0] == '1' && "true"@[0] == 't' && "yes"@[0] == 'y' && "0"@[0] == '0' && "false"@[0]
        == 'f' && "no"@[0] == 'n' && "on"@[1] == 'n' && "off"@[1] == 'f' && "on"@[0] == 'o'
        && "off"@[0] == 'o');
}

/// Machines are run as one of three words says, whatever its case; kvm is another word for the
/// second.
pub proof fn words_for_the_hypervisor(value: Seq<char>)
    ensures
        hypervisor_spec(value) == Ok::<HypervisorMode, AppErrorView>(HypervisorMode::Auto)
            <==> lowercase(value) == "auto"@,
        hypervisor_spec(value) == Ok::<HypervisorMode, AppErrorView>(HypervisorMode::Libvirt)
            <==> lowercase(value) == "libvirt"@ || lowercase(value) == "kvm"@,
        hypervisor_spec(value) == Ok::<HypervisorMode, AppErrorView>(HypervisorMode::Mock)
            <==> lowercase(value) == "mock"@,
{
    reveal_strlit("auto");
    reveal_strlit("libvirt");
    reveal_strlit("kvm");
    reveal_strlit("mock");
    assert("auto"@[0] == 'a' && "libvirt"@[0] == 'l' && "kvm"@[0] == 'k' && "mock"@[0] == 'm');
}

/// An address of the panel loses the slashes at its end, and nothing else.
pub proof fn slashes_at_the_end_are_dropped(s: Seq<char>, k: nat)
    requires
        s.len() > 0 ==> s.last() != '/',
    ensures
        without_slashes(s + Seq::new(k, |i: int| '/')) == s,
    decreases k,
{
    let t = s + Seq::new(k, |i: int| '/');
    if k == 0 {
        assert(t =~= s);
    } else {
        assert(t.last() == '/');
        assert(t.drop_last() =~= s + Seq::new((k - 1) as nat, |i: int| '/'));
        slashes_at_the_end_are_dropped(s, (k - 1) as nat);
    }
}

/// The tools have the version of the running controller where both bundled artifacts are used,
/// or where no version is named; else the version that is named.
pub proof fn the_version_of_the_tools(
    linux: Option<Seq<char>>,
    windows: Option<Seq<char>>,
    named: Option<Seq<char>>,
    running: Seq<char>,
)
    ensures
        named is None ==> guest_tools_version_spec(linux, windows, named, running) == running,
        linux is None || windows is None ==> guest_tools_version_spec(
            linux,
            windows,
            named,
            running,
        ) == (if named is Some {
            named->0
        } else {
            running
        }),
        linux is Some && windows is Some && same_path(
            linux->0,
            "/opt/vexa-vm/current/guest-tools/vexa-guest-tools-linux-x86_64"@,
        ) && same_path(
            windows->0,
            "/opt/vexa-vm/current/guest-tools/vexa-guest-tools-windows-x86_64.exe"@,
        ) ==> guest_tools_version_spec(linux, windows, named, running) == running,
{
}

} // verus!
