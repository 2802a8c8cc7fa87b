//! Tunnel configurations: their shape, where they are stored, the rules a
//! configuration must meet, and the edits made to the list of them.

use vstd::prelude::*;
use vstd::string::*;

use crate::text::{decimal, is_blank, push_decimal, str_eq, str_is_blank};
use vstd::utf8::encode_utf8;

verus! {

/// One tunnel: `localhost:local_port` is forwarded over SSH to
/// `target_host:target_port` as seen from `ssh_user@ssh_host`.
#[derive(Debug)]
pub struct TunnelConfig {
    pub id: String,
    pub name: String,
    pub ssh_host: String,
    pub ssh_user: String,
    pub ssh_key_path: String,
    pub target_host: String,
    pub target_port: u16,
    pub local_port: u16,
    pub auto_reconnect: bool,
}

impl TunnelConfig {
    /// A field-by-field copy.
    pub fn duplicate(&self) -> (r: TunnelConfig)
        ensures
            r == *self,
    {
        TunnelConfig {
            id: self.id.clone(),
            name: self.name.clone(),
            ssh_host: self.ssh_host.clone(),
            ssh_user: self.ssh_user.clone(),
            ssh_key_path: self.ssh_key_path.clone(),
            target_host: self.target_host.clone(),
            target_port: self.target_port,
            local_port: self.local_port,
            auto_reconnect: self.auto_reconnect,
        }
    }
}

impl Clone for TunnelConfig {
    fn clone(&self) -> (r: TunnelConfig)
        ensures
            r == *self,
    {
        self.duplicate()
    }
}

/// The target host a stored configuration gets when it names none.
pub fn default_target_host() -> (r: String)
    ensures
        r@ == "localhost"@,
{
    String::from_str("localhost")
}

// ---------------------------------------------------------------------
// Where the configurations are stored
// ---------------------------------------------------------------------

/// `base` joined with the relative component `part`, as `PathBuf::join`
/// does on Unix: a separator is put between them unless `base` is empty or
/// already ends with one.
pub open spec fn path_join(base: Seq<char>, part: Seq<char>) -> Seq<char> {
    if base.len() == 0 {
        part
    } else if base.last() == '/' {
        base + part
    } else {
        base.push('/') + part
    }
}

/// The configuration file inside the data directory `dir` (the working
/// directory when there is none).
pub open spec fn store_path(dir: Option<Seq<char>>) -> Seq<char> {
    let base = match dir {
        Some(d) => d,
        None => "."@,
    };
    path_join(path_join(base, "bad-adit"@), "tunnels.json"@)
}

/// Executable `path_join`.
pub fn join_path(base: &str, part: &str) -> (r: String)
    ensures
        r@ == path_join(base@, part@),
{
    let n = base.unicode_len();
    if n == 0 {
        return String::from_str(part);
    }
    let mut r = String::from_str(base);
    if base.get_char(n - 1) != '/' {
        r.push('/');
    }
    r.append(part);
    r
}

/// `base` joined with the relative component `part`, on the bytes of a path
/// that is not valid UTF-8: a `/` is put between them unless `base` is
/// empty or already ends with one, as `PathBuf::join` does on Unix.
pub open spec fn bytes_join(base: Seq<u8>, part: Seq<u8>) -> Seq<u8> {
    if base.len() == 0 {
        part
    } else if base.last() == 47u8 {
        base + part
    } else {
        base.push(47u8) + part
    }
}

/// The configuration file inside the data directory given by its bytes.
pub open spec fn store_bytes_path(dir: Seq<u8>) -> Seq<u8> {
    bytes_join(bytes_join(dir, encode_utf8("bad-adit"@)), encode_utf8("tunnels.json"@))
}

/// Executable `bytes_join`.
pub fn join_bytes(base: &Vec<u8>, part: &[u8]) -> (r: Vec<u8>)
    ensures
        r@ == bytes_join(base@, part@),
{
    let mut r: Vec<u8> = Vec::new();
    let n = base.len();
    let mut i: usize = 0;
    while i < n
        invariant
            n == base@.len(),
            i <= n,
            r@ == base@.subrange(0, i as int),
        decreases n - i,
    {
        r.push(base[i]);
        i = i + 1;
        assert(r@ =~= base@.subrange(0, i as int));
    }
    assert(base@.subrange(0, n as int) =~= base@);
    if n > 0 && base[n - 1] != 47u8 {
        r.push(47u8);
    }
    let ghost head = r@;
    let m = part.len();
    let mut j: usize = 0;
    while j < m
        invariant
            m == part@.len(),
            j <= m,
            r@ == head + part@.subrange(0, j as int),
        decreases m - j,
    {
        r.push(part[j]);
        j = j + 1;
        assert(r@ =~= head + part@.subrange(0, j as int));
    }
    assert(part@.subrange(0, m as int) =~= part@);
    assert(r@ =~= bytes_join(base@, part@));
    r
}

/// A directory or file path: as text when it is valid UTF-8, else as the
/// bytes of its platform encoding (`OsString::into_encoded_bytes`).
#[derive(Debug)]
pub enum StorePath {
    Text(String),
    Bytes(Vec<u8>),
}

/// What a `StorePath` holds.
pub enum StorePathView {
    Text(Seq<char>),
    Bytes(Seq<u8>),
}

impl View for StorePath {
    type V = StorePathView;

    open spec fn view(&self) -> StorePathView {
        match self {
            StorePath::Text(t) => StorePathView::Text(t@),
            StorePath::Bytes(b) => StorePathView::Bytes(b@),
        }
    }
}

/// The configuration file inside the data directory `dir` (the working
/// directory when there is none), in the form the directory came in.
pub open spec fn store_file(dir: Option<StorePathView>) -> StorePathView {
    match dir {
        None => StorePathView::Text(store_path(None)),
        Some(StorePathView::Text(d)) => StorePathView::Text(store_path(Some(d))),
        Some(StorePathView::Bytes(b)) => StorePathView::Bytes(store_bytes_path(b)),
    }
}

/// What an optional `StorePath` holds.
pub open spec fn opt_path_view(dir: Option<StorePath>) -> Option<StorePathView> {
    match dir {
        Some(d) => Some(d@),
        None => None,
    }
}

/// `dirs::data_dir`, the per-user data directory of the platform, as text
/// when it is valid UTF-8 and as its encoded bytes otherwise
/// (`OsString::into_string`, then `into_encoded_bytes` on failure). The
/// directory is read from the environment (`XDG_DATA_HOME`, `HOME`), so
/// nothing is claimed of the result.
#[verifier::external_body]
fn platform_data_dir() -> (r: Option<StorePath>) {
    match dirs::data_dir() {
        Some(p) => match p.into_os_string().into_string() {
            Ok(text) => Some(StorePath::Text(text)),
            Err(os) => Some(StorePath::Bytes(os.into_encoded_bytes())),
        },
        None => None,
    }
}

/// Where the tunnel configurations are kept.
#[derive(Debug)]
pub struct ConfigStore {
    path: StorePath,
}

impl ConfigStore {
    /// The store in the platform's data directory: `store_file` of the
    /// directory that `dirs::data_dir` reports.
    pub fn new() -> (r: ConfigStore)
        ensures
            exists|dir: Option<StorePathView>| r.path_view() == store_file(dir),
    {
        let dir = platform_data_dir();
        let r = ConfigStore::from_data_dir(dir);
        assert(r.path_view() == store_file(opt_path_view(dir)));
        r
    }

    /// The store in the data directory `dir` as the platform reports it:
    /// `bad-adit/tunnels.json` inside `dir`, or inside the working directory
    /// when there is none.
    pub fn from_data_dir(dir: Option<StorePath>) -> (r: ConfigStore)
        ensures
            r.path_view() == store_file(opt_path_view(dir)),
    {
        match dir {
            Some(StorePath::Bytes(d)) => {
                let app_dir = join_bytes(&d, "bad-adit".as_bytes());
                let path = join_bytes(&app_dir, "tunnels.json".as_bytes());
                ConfigStore { path: StorePath::Bytes(path) }
            },
            Some(StorePath::Text(d)) => ConfigStore::in_data_dir(Some(d)),
            None => ConfigStore::in_data_dir(None),
        }
    }

    /// The store inside the data directory `dir`.
    pub fn in_data_dir(dir: Option<String>) -> (r: ConfigStore)
        ensures
            r.path_view() == StorePathView::Text(
                store_path(
                    match dir {
                        Some(d) => Some(d@),
                        None => None,
                    },
                ),
            ),
    {
        let base = match dir {
            Some(d) => d,
            None => String::from_str("."),
        };
        let app_dir = join_path(base.as_str(), "bad-adit");
        let path = join_path(app_dir.as_str(), "tunnels.json");
        ConfigStore { path: StorePath::Text(path) }
    }

    /// A store at the given file.
    pub fn with_path(path: String) -> (r: ConfigStore)
        ensures
            r.path_view() == StorePathView::Text(path@),
    {
        ConfigStore { path: StorePath::Text(path) }
    }

    /// The file that holds the configurations.
    pub closed spec fn path_view(&self) -> StorePathView {
        self.path@
    }

    /// The file that holds the configurations.
    pub fn path(&self) -> (r: &StorePath)
        ensures
            r@ == self.path_view(),
    {
        &self.path
    }
}

// ---------------------------------------------------------------------
// Validation
// ---------------------------------------------------------------------

/// Whether a configuration other than `c` (by id) already listens on
/// `c`'s local port.
pub open spec fn port_taken(c: TunnelConfig, all: Seq<TunnelConfig>) -> bool {
    exists|i: int|
        0 <= i < all.len() && all[i].id@ != c.id@ && #[trigger] all[i].local_port == c.local_port
}

pub open spec fn port_in_use_message(port: u16) -> Seq<char> {
    "Local port "@ + decimal(port as nat) + " is already used by another tunnel"@
}

/// Why `c` is refused next to the configurations `all`, or `None` when it
/// is accepted. The checks are made in this order and the first that fails
/// gives the message.
pub open spec fn validation_error(c: TunnelConfig, all: Seq<TunnelConfig>) -> Option<Seq<char>> {
    if is_blank(c.name@) {
        Some("Tunnel name cannot be empty"@)
    } else if c.local_port == 0 {
        Some("Local port must be between 1 and 65535"@)
    } else if c.target_port == 0 {
        Some("Target port must be between 1 and 65535"@)
    } else if is_blank(c.ssh_host@) {
        Some("SSH host cannot be empty"@)
    } else if is_blank(c.ssh_user@) {
        Some("SSH user cannot be empty"@)
    } else if port_taken(c, all) {
        Some(port_in_use_message(c.local_port))
    } else {
        None
    }
}

/// The outcome that `validation_error` describes, as a `Result`.
pub open spec fn validation_outcome(r: Result<(), String>, c: TunnelConfig, all: Seq<TunnelConfig>) -> bool {
    match validation_error(c, all) {
        None => r is Ok,
        Some(m) => r matches Err(e) && e@ == m,
    }
}

fn port_is_taken(config: &TunnelConfig, all_configs: &[TunnelConfig]) -> (r: bool)
    ensures
        r == port_taken(*config, all_configs@),
{
    let n = all_configs.len();
    let mut i: usize = 0;
    while i < n
        invariant
            n == all_configs@.len(),
            i <= n,
            forall|j: int|
                0 <= j < i ==> !(all_configs@[j].id@ != config.id@ && #[trigger] all_configs@[j].local_port
                    == config.local_port),
        decreases n - i,
    {
        let c = &all_configs[i];
        if !(c.id == config.id) && c.local_port == config.local_port {
            return true;
        }
        i = i + 1;
    }
    false
}

/// Checks `config` against the rules and against the other configurations:
/// a non-blank name, SSH host and SSH user, non-zero ports, and a local port
/// that no configuration with another id uses.
pub fn validate_config(config: &TunnelConfig, all_configs: &[TunnelConfig]) -> (r: Result<(), String>)
    ensures
        validation_outcome(r, *config, all_configs@),
{
    if str_is_blank(config.name.as_str()) {
        return Err(String::from_str("Tunnel name cannot be empty"));
    }
    if config.local_port == 0 {
        return Err(String::from_str("Local port must be between 1 and 65535"));
    }
    if config.target_port == 0 {
        return Err(String::from_str("Target port must be between 1 and 65535"));
    }
    if str_is_blank(config.ssh_host.as_str()) {
        return Err(String::from_str("SSH host cannot be empty"));
    }
    if str_is_blank(config.ssh_user.as_str()) {
        return Err(String::from_str("SSH user cannot be empty"));
    }
    if port_is_taken(config, all_configs) {
        let mut m = String::from_str("Local port ");
        push_decimal(&mut m, config.local_port as u64);
        m.append(" is already used by another tunnel");
        return Err(m);
    }
    Ok(())
}


// ---------------------------------------------------------------------
// Edits to the list of configurations
// ---------------------------------------------------------------------

/// `c` under the id `id`.
pub open spec fn with_id(c: TunnelConfig, id: String) -> TunnelConfig {
    TunnelConfig { id: id, ..c }
}

/// `k` is the first position of a configuration with the id `id`.
pub open spec fn is_first_with_id(s: Seq<TunnelConfig>, id: Seq<char>, k: int) -> bool {
    &&& 0 <= k < s.len()
    &&& s[k].id@ == id
    &&& forall|j: int| 0 <= j < k ==> (#[trigger] s[j]).id@ != id
}

pub open spec fn has_id(s: Seq<TunnelConfig>, id: Seq<char>) -> bool {
    exists|k: int| 0 <= k < s.len() && (#[trigger] s[k]).id@ == id
}

/// The first position of a configuration with the id `id`.
pub open spec fn first_with_id(s: Seq<TunnelConfig>, id: Seq<char>) -> int
    recommends
        has_id(s, id),
{
    choose|k: int| is_first_with_id(s, id, k)
}

pub proof fn lemma_first_with_id(s: Seq<TunnelConfig>, id: Seq<char>)
    requires
        has_id(s, id),
    ensures
        is_first_with_id(s, id, first_with_id(s, id)),
{
    let k0 = choose|k: int| 0 <= k < s.len() && (#[trigger] s[k]).id@ == id;
    lemma_first_exists(s, id, k0);
}

proof fn lemma_first_exists(s: Seq<TunnelConfig>, id: Seq<char>, k: int)
    requires
        0 <= k < s.len(),
        s[k].id@ == id,
    ensures
        exists|m: int| is_first_with_id(s, id, m),
    decreases k,
{
    if exists|j: int| 0 <= j < k && (#[trigger] s[j]).id@ == id {
        let j = choose|j: int| 0 <= j < k && (#[trigger] s[j]).id@ == id;
        lemma_first_exists(s, id, j);
    } else {
        assert(is_first_with_id(s, id, k));
    }
}

proof fn lemma_first_unique(s: Seq<TunnelConfig>, id: Seq<char>, k: int)
    requires
        is_first_with_id(s, id, k),
    ensures
        has_id(s, id),
        first_with_id(s, id) == k,
{
    assert(s[k].id@ == id);
    lemma_first_with_id(s, id);
    let f = first_with_id(s, id);
    if f < k {
        assert(s[f].id@ != id);
    } else if k < f {
        assert(s[k].id@ != id);
    }
}

pub open spec fn not_found_message(id: Seq<char>) -> Seq<char> {
    "Tunnel "@ + id + " not found"@
}

/// The configurations after adding `config` under the new id `id`, with
/// the result that the addition returns.
pub open spec fn added(old: Seq<TunnelConfig>, config: TunnelConfig, id: String) -> (Seq<TunnelConfig>, Result<TunnelConfig, Seq<char>>) {
    let c = with_id(config, id);
    match validation_error(c, old) {
        Some(m) => (old, Err(m)),
        None => (old.push(c), Ok(c)),
    }
}

/// The configurations after replacing the one with `config`'s id, with the
/// result that the update returns.
pub open spec fn updated(old: Seq<TunnelConfig>, config: TunnelConfig) -> (Seq<TunnelConfig>, Result<TunnelConfig, Seq<char>>) {
    match validation_error(config, old) {
        Some(m) => (old, Err(m)),
        None => if has_id(old, config.id@) {
            (old.update(first_with_id(old, config.id@), config), Ok(config))
        } else {
            (old, Err("Tunnel not found"@))
        },
    }
}

/// The configurations without those with the id `id`, in their order.
pub open spec fn without_id(s: Seq<TunnelConfig>, id: Seq<char>) -> Seq<TunnelConfig>
    decreases s.len(),
{
    if s.len() == 0 {
        s
    } else if s.last().id@ == id {
        without_id(s.drop_last(), id)
    } else {
        without_id(s.drop_last(), id).push(s.last())
    }
}

/// A returned `Result` seen through the view of its error.
pub open spec fn result_view<T>(r: Result<T, String>) -> Result<T, Seq<char>> {
    match r {
        Ok(v) => Ok(v),
        Err(e) => Err(e@),
    }
}

/// Whether `id` has the shape of a hyphenated lower-case UUID of version 4:
/// 36 characters, hyphens at positions 8, 13, 18 and 23, the version digit
/// `4` at position 14, and lower-case hexadecimal digits elsewhere.
pub open spec fn is_uuid_v4_text(id: Seq<char>) -> bool {
    &&& id.len() == 36
    &&& forall|i: int|
        0 <= i < 36 ==> (if i == 8 || i == 13 || i == 18 || i == 23 {
            id[i] == '-'
        } else {
            ('0' <= #[trigger] id[i] <= '9') || ('a' <= id[i] <= 'f')
        })
    &&& id[14] == '4'
}

/// The lower-case hexadecimal digit for a nibble.
pub open spec fn hex_digit(n: u8) -> char {
    if n < 10 {
        (48 + n) as char
    } else {
        (87 + n) as char
    }
}

/// Two lower-case hexadecimal digits per byte, high nibble first.
pub open spec fn hex_text(bs: Seq<u8>) -> Seq<char>
    decreases bs.len(),
{
    if bs.len() == 0 {
        Seq::empty()
    } else {
        hex_text(bs.drop_last()).push(hex_digit(bs.last() >> 4u8)).push(hex_digit(bs.last() & 0x0fu8))
    }
}

/// The sixteen bytes with the version (4, random) and the RFC 4122 variant
/// set, as `uuid::Builder::from_random_bytes` does.
pub open spec fn with_v4_bits(b: Seq<u8>) -> Seq<u8> {
    b.update(6, (b[6] & 0x0fu8) | 0x40u8).update(8, (b[8] & 0x3fu8) | 0x80u8)
}

/// The hyphenated lower-case text of the version 4 UUID made from the
/// sixteen random bytes `b`: hex groups of 8, 4, 4, 4 and 12 digits.
pub open spec fn uuid_v4_text(b: Seq<u8>) -> Seq<char> {
    let h = hex_text(with_v4_bits(b));
    h.subrange(0, 8) + seq!['-'] + h.subrange(8, 12) + seq!['-'] + h.subrange(12, 16) + seq!['-']
        + h.subrange(16, 20) + seq!['-'] + h.subrange(20, 32)
}

/// `getrandom::fill` on sixteen bytes: random bytes from the operating
/// system, or `None` when it has none to give. The bytes are random;
/// nothing is claimed of them.
#[verifier::external_body]
fn random_id_bytes() -> (r: Option<[u8; 16]>) {
    let mut bytes = [0u8; 16];
    match getrandom::fill(&mut bytes) {
        Ok(()) => Some(bytes),
        Err(_) => None,
    }
}

/// `uuid::Builder::from_random_bytes`, as a `Uuid`, rendered by its
/// `Display` impl: the version and variant bits are set in the bytes, which
/// are then written as hyphenated lower-case hexadecimal.
#[verifier::external_body]
fn uuid_v4_from_bytes(bytes: [u8; 16]) -> (r: String)
    ensures
        r@ == uuid_v4_text(bytes@),
{
    uuid::Builder::from_random_bytes(bytes).into_uuid().to_string()
}

proof fn lemma_hex_text(bs: Seq<u8>)
    ensures
        hex_text(bs).len() == 2 * bs.len(),
        forall|i: int|
            0 <= i < bs.len() ==> hex_text(bs)[2 * i] == hex_digit(#[trigger] bs[i] >> 4u8)
                && hex_text(bs)[2 * i + 1] == hex_digit(bs[i] & 0x0fu8),
    decreases bs.len(),
{
    if bs.len() > 0 {
        let p = bs.drop_last();
        lemma_hex_text(p);
        assert forall|i: int| 0 <= i < bs.len() implies hex_text(bs)[2 * i] == hex_digit(
            #[trigger] bs[i] >> 4u8,
        ) && hex_text(bs)[2 * i + 1] == hex_digit(bs[i] & 0x0fu8) by {
            if i < p.len() {
                assert(bs[i] == p[i]);
            }
        }
    }
}

proof fn lemma_hex_digit(n: u8)
    requires
        n < 16,
    ensures
        ('0' <= hex_digit(n) <= '9') || ('a' <= hex_digit(n) <= 'f'),
{
}

/// Every id made from sixteen bytes is a hyphenated lower-case version 4
/// UUID text.
pub proof fn law_generated_ids_are_uuid_v4(b: Seq<u8>)
    requires
        b.len() == 16,
    ensures
        is_uuid_v4_text(uuid_v4_text(b)),
{
    let v = with_v4_bits(b);
    lemma_hex_text(v);
    let h = hex_text(v);
    let t = uuid_v4_text(b);
    assert forall|k: int| 0 <= k < 16 implies (v[k] >> 4u8) < 16 && (v[k] & 0x0fu8) < 16 by {
        let x = v[k];
        assert((x >> 4u8) < 16 && (x & 0x0fu8) < 16) by (bit_vector);
    }
    assert forall|j: int| 0 <= j < 32 implies ('0' <= #[trigger] h[j] <= '9') || ('a' <= h[j] <= 'f') by {
        let k = j / 2;
        if j % 2 == 0 {
            assert(j == 2 * k);
            lemma_hex_digit(v[k] >> 4u8);
        } else {
            assert(j == 2 * k + 1);
            lemma_hex_digit(v[k] & 0x0fu8);
        }
    }
    assert forall|i: int|
        0 <= i < 36 implies (if i == 8 || i == 13 || i == 18 || i == 23 {
        t[i] == '-'
    } else {
        ('0' <= #[trigger] t[i] <= '9') || ('a' <= t[i] <= 'f')
    }) by {
        if i < 8 {
            assert(t[i] == h[i]);
        } else if 8 < i < 13 {
            assert(t[i] == h[i - 1]);
        } else if 13 < i < 18 {
            assert(t[i] == h[i - 2]);
        } else if 18 < i < 23 {
            assert(t[i] == h[i - 3]);
        } else if 23 < i {
            assert(t[i] == h[i - 4]);
        }
    }
    let x = b[6];
    assert((((x & 0x0fu8) | 0x40u8) >> 4u8) == 4u8) by (bit_vector);
    assert(v[6] == (x & 0x0fu8) | 0x40u8);
    assert(t[14] == h[12]);
    assert(h[12] == hex_digit(v[6] >> 4u8));
}

pub open spec fn id_failure_message() -> Seq<char> {
    "Failed to generate a tunnel id: no random bytes available"@
}

/// Adds `config` under a freshly generated random id, if it passes
/// validation against the existing configurations. Returns the stored
/// configuration; fails without change when the operating system gives no
/// random bytes.
pub fn add_tunnel_config(configs: &mut Vec<TunnelConfig>, config: TunnelConfig) -> (r: Result<
    TunnelConfig,
    String,
>)
    ensures
        (final(configs)@ == old(configs)@ && (r matches Err(e) && e@ == id_failure_message())) || (
        exists|b: Seq<u8>, id: String|
            #![trigger uuid_v4_text(b), added(old(configs)@, config, id)]
            b.len() == 16 && id@ == uuid_v4_text(b) && added(old(configs)@, config, id) == (
                final(configs)@,
                result_view(r),
            )),
{
    match random_id_bytes() {
        None => Err(String::from_str("Failed to generate a tunnel id: no random bytes available")),
        Some(bytes) => {
            let id = uuid_v4_from_bytes(bytes);
            let ghost b = bytes@;
            let r = add_tunnel_config_with_id(configs, config, id);
            assert(added(old(configs)@, config, id) == (configs@, result_view(r)));
            assert(b.len() == 16);
            r
        },
    }
}

/// Adds `config` under the id `id`, if it passes validation against the
/// existing configurations. Returns the stored configuration.
pub fn add_tunnel_config_with_id(configs: &mut Vec<TunnelConfig>, config: TunnelConfig, id: String) -> (r: Result<TunnelConfig, String>)
    ensures
        added(old(configs)@, config, id) == (final(configs)@, result_view(r)),
{
    let mut new_config = config;
    new_config.id = id;
    match validate_config(&new_config, configs.as_slice()) {
        Err(e) => Err(e),
        Ok(()) => {
            configs.push(new_config.duplicate());
            Ok(new_config)
        },
    }
}

/// Replaces the first configuration that has `config`'s id by `config`,
/// if `config` passes validation against the existing configurations.
pub fn update_tunnel_config(configs: &mut Vec<TunnelConfig>, config: TunnelConfig) -> (r: Result<TunnelConfig, String>)
    ensures
        updated(old(configs)@, config) == (final(configs)@, result_view(r)),
{
    match validate_config(&config, configs.as_slice()) {
        Err(e) => {
            return Err(e);
        },
        Ok(()) => {},
    }
    let n = configs.len();
    let mut i: usize = 0;
    while i < n
        invariant
            n == configs@.len(),
            configs@ == old(configs)@,
            validation_error(config, old(configs)@) is None,
            i <= n,
            forall|j: int| 0 <= j < i ==> (#[trigger] configs@[j]).id@ != config.id@,
        decreases n - i,
    {
        if configs[i].id == config.id {
            proof {
                assert(is_first_with_id(configs@, config.id@, i as int));
                lemma_first_unique(configs@, config.id@, i as int);
            }
            configs.set(i, config.duplicate());
            return Ok(config);
        }
        i = i + 1;
    }
    Err(String::from_str("Tunnel not found"))
}

/// Drops every configuration with the id `id`, keeping the others in order.
pub fn remove_tunnel_config(configs: &mut Vec<TunnelConfig>, id: &str)
    ensures
        final(configs)@ == without_id(old(configs)@, id@),
{
    let mut kept: Vec<TunnelConfig> = Vec::new();
    let n = configs.len();
    let mut i: usize = 0;
    while i < n
        invariant
            n == configs@.len(),
            configs@ == old(configs)@,
            i <= n,
            kept@ == without_id(configs@.subrange(0, i as int), id@),
        decreases n - i,
    {
        assert(configs@.subrange(0, i + 1).drop_last() =~= configs@.subrange(0, i as int));
        if !str_eq(configs[i].id.as_str(), id) {
            kept.push(configs[i].duplicate());
        }
        i = i + 1;
    }
    assert(configs@.subrange(0, n as int) =~= configs@);
    *configs = kept;
}

/// The first configuration with the id `id`, or the error that names it.
pub fn find_tunnel_config(configs: &[TunnelConfig], id: &str) -> (r: Result<TunnelConfig, String>)
    ensures
        has_id(configs@, id@) ==> r == Ok::<TunnelConfig, String>(configs@[first_with_id(configs@, id@)]),
        !has_id(configs@, id@) ==> (r matches Err(e) && e@ == not_found_message(id@)),
{
    let n = configs.len();
    let mut i: usize = 0;
    while i < n
        invariant
            n == configs@.len(),
            i <= n,
            forall|j: int| 0 <= j < i ==> (#[trigger] configs@[j]).id@ != id@,
        decreases n - i,
    {
        if str_eq(configs[i].id.as_str(), id) {
            proof {
                assert(is_first_with_id(configs@, id@, i as int));
                lemma_first_unique(configs@, id@, i as int);
            }
            return Ok(configs[i].duplicate());
        }
        i = i + 1;
    }
    let mut m = String::from_str("Tunnel ");
    m.append(id);
    m.append(" not found");
    Err(m)
}


// ---------------------------------------------------------------------
// Laws of the configuration list
// ---------------------------------------------------------------------

/// No two configurations listen on the same local port.
pub open spec fn distinct_local_ports(s: Seq<TunnelConfig>) -> bool {
    forall|i: int, j: int|
        0 <= i < s.len() && 0 <= j < s.len() && i != j ==> #[trigger] s[i].local_port
            != #[trigger] s[j].local_port
}

/// No two configurations share an id.
pub open spec fn distinct_ids(s: Seq<TunnelConfig>) -> bool {
    forall|i: int, j: int|
        0 <= i < s.len() && 0 <= j < s.len() && i != j ==> (#[trigger] s[i]).id@ != (#[trigger] s[j]).id@
}

proof fn lemma_without_id_members(s: Seq<TunnelConfig>, id: Seq<char>)
    ensures
        forall|k: int|
            0 <= k < without_id(s, id).len() ==> (#[trigger] without_id(s, id)[k]).id@ != id
                && s.contains(without_id(s, id)[k]),
        forall|k: int|
            0 <= k < s.len() && (#[trigger] s[k]).id@ != id ==> without_id(s, id).contains(s[k]),
    decreases s.len(),
{
    if s.len() > 0 {
        let p = s.drop_last();
        lemma_without_id_members(p, id);
        let w = without_id(s, id);
        let wp = without_id(p, id);
        assert forall|k: int| 0 <= k < w.len() implies (#[trigger] w[k]).id@ != id && s.contains(w[k]) by {
            if k < wp.len() {
                assert(w[k] == wp[k]);
                let m = choose|m: int| 0 <= m < p.len() && p[m] == wp[k];
                assert(s[m] == p[m]);
            } else {
                assert(w[k] == s.last());
                assert(s[s.len() - 1] == s.last());
            }
        }
        assert forall|k: int| 0 <= k < s.len() && (#[trigger] s[k]).id@ != id implies w.contains(s[k]) by {
            if k < p.len() {
                assert(p[k] == s[k]);
                let m = choose|m: int| 0 <= m < wp.len() && wp[m] == p[k];
                assert(w[m] == wp[m]);
            } else {
                assert(w[w.len() - 1] == s[k]);
            }
        }
    }
}

/// A configuration is accepted exactly when its name, SSH host and SSH user
/// are not blank, its local and target ports are both in 1..=65535, and no
/// configuration with another id listens on its local port. So every target
/// port from 1 to 65535 passes, and only port 0 is refused, with the target
/// port message (once the name and local port have passed).
pub proof fn law_validation_accepts_exactly_valid(c: TunnelConfig, all: Seq<TunnelConfig>)
    ensures
        validation_error(c, all) is None <==> {
            &&& !is_blank(c.name@)
            &&& 1 <= c.local_port <= 65535
            &&& 1 <= c.target_port <= 65535
            &&& !is_blank(c.ssh_host@)
            &&& !is_blank(c.ssh_user@)
            &&& forall|i: int|
                0 <= i < all.len() && all[i].id@ != c.id@ ==> #[trigger] all[i].local_port != c.local_port
        },
        validation_error(c, all) == Some("Target port must be between 1 and 65535"@) <==> {
            &&& !is_blank(c.name@)
            &&& c.local_port != 0
            &&& c.target_port == 0
        },
{
    reveal_strlit("Target port must be between 1 and 65535");
    reveal_strlit("Tunnel name cannot be empty");
    reveal_strlit("Local port must be between 1 and 65535");
    reveal_strlit("SSH host cannot be empty");
    reveal_strlit("SSH user cannot be empty");
    reveal_strlit("Local port ");
    let t = "Target port must be between 1 and 65535"@;
    assert(t[0] == 'T' && t[1] == 'a');
    assert("Tunnel name cannot be empty"@[1] == 'u');
    assert("Local port must be between 1 and 65535"@[0] == 'L');
    assert("SSH host cannot be empty"@[0] == 'S');
    assert("SSH user cannot be empty"@[0] == 'S');
    assert(port_in_use_message(c.local_port)[0] == 'L');
    if port_taken(c, all) {
        let i = choose|i: int|
            0 <= i < all.len() && all[i].id@ != c.id@ && #[trigger] all[i].local_port == c.local_port;
        assert(all[i].local_port == c.local_port);
    }
}

/// Other configurations that carry the same id as the one checked never
/// cause it to be refused: validating against a list gives the same answer
/// as validating against that list without the entries of this id (which
/// is what lets a configuration be saved again under its own local port).
pub proof fn law_validation_ignores_own_entries(c: TunnelConfig, all: Seq<TunnelConfig>)
    ensures
        validation_error(c, all) == validation_error(c, without_id(all, c.id@)),
{
    lemma_without_id_members(all, c.id@);
    let w = without_id(all, c.id@);
    if port_taken(c, all) {
        let i = choose|i: int|
            0 <= i < all.len() && all[i].id@ != c.id@ && #[trigger] all[i].local_port == c.local_port;
        assert(w.contains(all[i]));
        let k = choose|k: int| 0 <= k < w.len() && w[k] == all[i];
        assert(w[k].local_port == c.local_port);
        assert(port_taken(c, w));
    }
    if port_taken(c, w) {
        let k = choose|k: int|
            0 <= k < w.len() && w[k].id@ != c.id@ && #[trigger] w[k].local_port == c.local_port;
        assert(all.contains(w[k]));
        let i = choose|i: int| 0 <= i < all.len() && all[i] == w[k];
        assert(all[i].local_port == c.local_port);
        assert(port_taken(c, all));
    }
}

/// Adding a configuration under an id that no stored configuration has
/// keeps the local ports of the stored configurations pairwise distinct,
/// and keeps their ids pairwise distinct.
pub proof fn law_add_keeps_ports_and_ids_distinct(old: Seq<TunnelConfig>, config: TunnelConfig, id: String)
    requires
        distinct_local_ports(old),
        distinct_ids(old),
        !has_id(old, id@),
    ensures
        distinct_local_ports(added(old, config, id).0),
        distinct_ids(added(old, config, id).0),
{
    let c = with_id(config, id);
    if validation_error(c, old) is None {
        let s = old.push(c);
        assert forall|i: int, j: int|
            0 <= i < s.len() && 0 <= j < s.len() && i != j implies #[trigger] s[i].local_port
            != #[trigger] s[j].local_port by {
            if i == old.len() {
                assert(old[j].id@ != id@);
                assert(!(old[j].id@ != c.id@ && old[j].local_port == c.local_port));
            } else if j == old.len() {
                assert(old[i].id@ != id@);
                assert(!(old[i].id@ != c.id@ && old[i].local_port == c.local_port));
            } else {
                assert(s[i] == old[i] && s[j] == old[j]);
            }
        }
        assert forall|i: int, j: int|
            0 <= i < s.len() && 0 <= j < s.len() && i != j implies (#[trigger] s[i]).id@
            != (#[trigger] s[j]).id@ by {
            if i == old.len() {
                assert(old[j].id@ != id@);
            } else if j == old.len() {
                assert(old[i].id@ != id@);
            } else {
                assert(s[i] == old[i] && s[j] == old[j]);
            }
        }
    }
}

/// Updating a configuration keeps the local ports of the stored
/// configurations pairwise distinct, and keeps their ids pairwise distinct.
pub proof fn law_update_keeps_ports_and_ids_distinct(old: Seq<TunnelConfig>, config: TunnelConfig)
    requires
        distinct_local_ports(old),
        distinct_ids(old),
    ensures
        distinct_local_ports(updated(old, config).0),
        distinct_ids(updated(old, config).0),
{
    if validation_error(config, old) is None && has_id(old, config.id@) {
        lemma_first_with_id(old, config.id@);
        let k = first_with_id(old, config.id@);
        let s = old.update(k, config);
        assert forall|i: int, j: int|
            0 <= i < s.len() && 0 <= j < s.len() && i != j implies #[trigger] s[i].local_port
            != #[trigger] s[j].local_port by {
            if i == k {
                assert(old[j].id@ != old[k].id@);
                assert(!(old[j].id@ != config.id@ && old[j].local_port == config.local_port));
            } else if j == k {
                assert(old[i].id@ != old[k].id@);
                assert(!(old[i].id@ != config.id@ && old[i].local_port == config.local_port));
            } else {
                assert(s[i] == old[i] && s[j] == old[j]);
            }
        }
        assert forall|i: int, j: int|
            0 <= i < s.len() && 0 <= j < s.len() && i != j implies (#[trigger] s[i]).id@
            != (#[trigger] s[j]).id@ by {
            if i == k {
                assert(old[j].id@ != old[k].id@);
            } else if j == k {
                assert(old[i].id@ != old[k].id@);
            } else {
                assert(s[i] == old[i] && s[j] == old[j]);
            }
        }
    }
}

/// After a successful addition under a new id, looking that id up finds
/// the configuration that was added.
pub proof fn law_find_after_add(old: Seq<TunnelConfig>, config: TunnelConfig, id: String)
    requires
        !has_id(old, id@),
        added(old, config, id).1 is Ok,
    ensures
        has_id(added(old, config, id).0, id@),
        added(old, config, id).0[first_with_id(added(old, config, id).0, id@)] == with_id(config, id),
{
    let s = added(old, config, id).0;
    assert(s == old.push(with_id(config, id)));
    assert(s[old.len() as int].id@ == id@);
    assert(is_first_with_id(s, id@, old.len() as int));
    lemma_first_unique(s, id@, old.len() as int);
}

/// After a successful update, looking the id up finds the new
/// configuration.
pub proof fn law_find_after_update(old: Seq<TunnelConfig>, config: TunnelConfig)
    requires
        updated(old, config).1 is Ok,
    ensures
        has_id(updated(old, config).0, config.id@),
        updated(old, config).0[first_with_id(updated(old, config).0, config.id@)] == config,
{
    lemma_first_with_id(old, config.id@);
    let k = first_with_id(old, config.id@);
    let s = old.update(k, config);
    assert(is_first_with_id(s, config.id@, k));
    lemma_first_unique(s, config.id@, k);
}

/// After removing an id no configuration with that id is left, and every
/// configuration with another id is still there.
pub proof fn law_remove_drops_only_that_id(s: Seq<TunnelConfig>, id: Seq<char>)
    ensures
        !has_id(without_id(s, id), id),
        forall|k: int| 0 <= k < s.len() && (#[trigger] s[k]).id@ != id ==> without_id(s, id).contains(s[k]),
{
    lemma_without_id_members(s, id);
}

} // verus!
