//! Core data types: layers, endpoints, findings, outcomes, fault targets.
use vstd::prelude::*;
use vstd::string::*;
use crate::text::{decimal, u64_text};

verus! {

/// Which layer of the stack is targeted.
#[derive(Clone, Copy, Debug, PartialEq, Eq, Hash, Structural)]
pub enum Layer {
    L1,
    L2,
    L3,
}

/// The display name of a layer.
pub open spec fn layer_name(l: Layer) -> Seq<char> {
    match l {
        Layer::L1 => "L1"@,
        Layer::L2 => "L2"@,
        Layer::L3 => "L3"@,
    }
}

impl Layer {
    /// The display name: `L1`, `L2` or `L3`.
    pub fn to_string(&self) -> (s: String)
        ensures
            s@ == layer_name(*self),
    {
        match self {
            Layer::L1 => String::from_str("L1"),
            Layer::L2 => String::from_str("L2"),
            Layer::L3 => String::from_str("L3"),
        }
    }
}

/// RPC endpoint configuration for one layer.
#[derive(Clone, Debug)]
pub struct LayerEndpoint {
    pub layer: Layer,
    pub rpc_url: String,
    pub ws_url: Option<String>,
    pub chain_id: u64,
}

/// Full stack target configuration.
#[derive(Clone, Debug)]
pub struct StackConfig {
    pub l1: LayerEndpoint,
    pub l2: LayerEndpoint,
    pub l3: Option<LayerEndpoint>,
    pub docker_compose_project: String,
    pub docker_compose_dir: String,
    /// L1 Inbox contract address (from the rollup deployment), for deposit tests.
    pub inbox_addr: Option<String>,
    /// L1 Bridge contract address (from the rollup deployment), for bridge balance checks.
    pub bridge_addr: Option<String>,
    /// ExpressLaneAuction contract address (from the timeboost deployment).
    pub auction_addr: Option<String>,
}

/// Whether `e` is the endpoint for `layer` at `rpc` and `ws` with `chain_id`.
pub open spec fn endpoint_is(e: LayerEndpoint, layer: Layer, rpc: Seq<char>, ws: Seq<char>, chain_id: u64) -> bool {
    &&& e.layer == layer
    &&& e.rpc_url@ == rpc
    &&& e.ws_url matches Some(w) && w@ == ws
    &&& e.chain_id == chain_id
}

impl StackConfig {
    /// The local nitro-testnode defaults.
    pub open spec fn is_default(self) -> bool {
        &&& endpoint_is(self.l1, Layer::L1, "http://127.0.0.1:8545"@, "ws://127.0.0.1:8546"@, 1337)
        &&& endpoint_is(self.l2, Layer::L2, "http://127.0.0.1:8547"@, "ws://127.0.0.1:8548"@, 412346)
        &&& self.l3 matches Some(l3) && endpoint_is(l3, Layer::L3, "http://127.0.0.1:3347"@, "ws://127.0.0.1:3348"@, 0)
        &&& self.docker_compose_project@ == "nitro-testnode-live"@
        &&& self.docker_compose_dir@ == Seq::<char>::empty()
        &&& self.inbox_addr is None
        &&& self.bridge_addr is None
        &&& self.auction_addr is None
    }
}

fn endpoint(layer: Layer, rpc: &str, ws: &str, chain_id: u64) -> (e: LayerEndpoint)
    ensures
        endpoint_is(e, layer, rpc@, ws@, chain_id),
{
    LayerEndpoint {
        layer,
        rpc_url: String::from_str(rpc),
        ws_url: Some(String::from_str(ws)),
        chain_id,
    }
}

impl Default for StackConfig {
    fn default() -> (c: Self)
        ensures
            c.is_default(),
    {
        StackConfig {
            l1: endpoint(Layer::L1, "http://127.0.0.1:8545", "ws://127.0.0.1:8546", 1337),
            l2: endpoint(Layer::L2, "http://127.0.0.1:8547", "ws://127.0.0.1:8548", 412346),
            // The L3 chain id is discovered at runtime.
            l3: Some(endpoint(Layer::L3, "http://127.0.0.1:3347", "ws://127.0.0.1:3348", 0)),
            docker_compose_project: String::from_str("nitro-testnode-live"),
            docker_compose_dir: String::new(),
            inbox_addr: None,
            bridge_addr: None,
            auction_addr: None,
        }
    }
}

/// Severity of a finding, from least to most severe.
#[derive(Clone, Copy, Debug, PartialEq, Eq, PartialOrd, Ord, Hash, Structural)]
pub enum Severity {
    Info,
    Low,
    Medium,
    High,
    Critical,
}

/// The display name of a severity.
pub open spec fn severity_name(s: Severity) -> Seq<char> {
    match s {
        Severity::Info => "INFO"@,
        Severity::Low => "LOW"@,
        Severity::Medium => "MEDIUM"@,
        Severity::High => "HIGH"@,
        Severity::Critical => "CRITICAL"@,
    }
}

impl Severity {
    /// The display name: `INFO`, `LOW`, `MEDIUM`, `HIGH` or `CRITICAL`.
    pub fn to_string(&self) -> (s: String)
        ensures
            s@ == severity_name(*self),
    {
        match self {
            Severity::Info => String::from_str("INFO"),
            Severity::Low => String::from_str("LOW"),
            Severity::Medium => String::from_str("MEDIUM"),
            Severity::High => String::from_str("HIGH"),
            Severity::Critical => String::from_str("CRITICAL"),
        }
    }
}

/// Supporting data of a finding: named counters, in order. An empty list
/// stands for "no evidence".
#[derive(Clone, Debug)]
pub struct EvidenceField {
    pub key: String,
    pub value: u64,
}

/// The views of a list of evidence fields.
pub open spec fn evidence_view(v: Seq<EvidenceField>) -> Seq<(Seq<char>, u64)> {
    Seq::new(v.len(), |i: int| (v[i].key@, v[i].value))
}

/// A finding produced by an invariant check or a scenario.
#[derive(Debug)]
pub struct Finding {
    pub id: String,
    pub severity: Severity,
    pub title: String,
    pub description: String,
    pub layer: Option<Layer>,
    pub scenario: String,
    pub seed: u64,
    pub tick: u64,
    pub evidence: Vec<EvidenceField>,
}

/// What a finding says, leaving out its random id.
pub struct FindingView {
    pub severity: Severity,
    pub title: Seq<char>,
    pub description: Seq<char>,
    pub layer: Option<Layer>,
    pub scenario: Seq<char>,
    pub seed: u64,
    pub tick: u64,
    pub evidence: Seq<(Seq<char>, u64)>,
}

impl View for Finding {
    type V = FindingView;

    open spec fn view(&self) -> FindingView {
        FindingView {
            severity: self.severity,
            title: self.title@,
            description: self.description@,
            layer: self.layer,
            scenario: self.scenario@,
            seed: self.seed,
            tick: self.tick,
            evidence: evidence_view(self.evidence@),
        }
    }
}

/// Outcome of a single scenario run.
#[derive(Debug)]
pub enum ScenarioOutcome {
    Passed { duration_ms: u64, checks_run: u64 },
    Failed { duration_ms: u64, findings: Vec<Finding> },
    Error { message: String },
}

impl ScenarioOutcome {
    pub fn is_pass(&self) -> (b: bool)
        ensures
            b == (self is Passed),
    {
        match self {
            ScenarioOutcome::Passed { .. } => true,
            _ => false,
        }
    }
}

/// A 256-bit unsigned integer as two 128-bit halves.
#[derive(Clone, Copy, Debug, PartialEq, Eq, Structural)]
pub struct U256 {
    pub hi: u128,
    pub lo: u128,
}

/// 2^128.
pub open spec fn two_pow_128() -> int {
    0x1_0000_0000_0000_0000_0000_0000_0000_0000int
}

/// 2^64.
pub open spec fn two_pow_64() -> int {
    0x1_0000_0000_0000_0000int
}

/// 2^256.
pub open spec fn two_pow_256() -> int {
    two_pow_128() * two_pow_128()
}

/// The number that four 64-bit limbs, least significant first, stand for.
pub open spec fn limbs_value(l: Seq<u64>) -> int {
    l[0] + l[1] * two_pow_64() + (l[2] + l[3] * two_pow_64()) * two_pow_128()
}

/// Renders the 256-bit integer with limbs `limbs` (least significant first)
/// through `alloy_primitives::U256::from_limbs` and its `Display` impl, which
/// writes the decimal digits of the value; the contract claims those digits.
#[verifier::external_body]
fn u256_text(limbs: [u64; 4]) -> (s: String)
    ensures
        s@ == decimal(limbs_value(limbs@) as nat),
{
    alloy_primitives::U256::from_limbs(limbs).to_string()
}

impl U256 {
    /// The number this value stands for.
    pub open spec fn value(self) -> int {
        self.hi * two_pow_128() + self.lo
    }

    pub fn zero() -> (z: U256)
        ensures
            z.value() == 0,
    {
        U256 { hi: 0, lo: 0 }
    }

    pub fn from_u64(v: u64) -> (z: U256)
        ensures
            z.value() == v,
    {
        U256 { hi: 0, lo: v as u128 }
    }

    pub fn is_zero(&self) -> (b: bool)
        ensures
            b == (self.value() == 0),
    {
        self.hi == 0 && self.lo == 0
    }

    /// Strictly less than.
    pub fn lt(&self, other: &U256) -> (b: bool)
        ensures
            b == (self.value() < other.value()),
    {
        self.hi < other.hi || (self.hi == other.hi && self.lo < other.lo)
    }

    /// Sum modulo 2^256, as `+` on 256-bit integers computes it.
    pub fn wrapping_add(&self, other: &U256) -> (r: U256)
        ensures
            r.value() == if self.value() + other.value() < two_pow_256() {
                self.value() + other.value()
            } else {
                self.value() + other.value() - two_pow_256()
            },
    {
        let (lo, carry) = if self.lo <= u128::MAX - other.lo {
            (self.lo + other.lo, 0u128)
        } else {
            (self.lo - (u128::MAX - other.lo) - 1, 1u128)
        };
        let h1 = if self.hi <= u128::MAX - other.hi {
            self.hi + other.hi
        } else {
            self.hi - (u128::MAX - other.hi) - 1
        };
        let hi = if carry == 1 {
            if h1 == u128::MAX {
                0
            } else {
                h1 + 1
            }
        } else {
            h1
        };
        U256 { hi, lo }
    }

    /// The four 64-bit limbs of the value, least significant first.
    pub fn limbs(&self) -> (l: [u64; 4])
        ensures
            limbs_value(l@) == self.value(),
    {
        let lo = self.lo;
        let hi = self.hi;
        let l0 = (lo & 0xffff_ffff_ffff_ffff) as u64;
        let l1 = (lo >> 64u128) as u64;
        let l2 = (hi & 0xffff_ffff_ffff_ffff) as u64;
        let l3 = (hi >> 64u128) as u64;
        assert(lo == (lo & 0xffff_ffff_ffff_ffff) + (lo >> 64u128) * 0x1_0000_0000_0000_0000u128
            && (lo >> 64u128) < 0x1_0000_0000_0000_0000u128 && (lo & 0xffff_ffff_ffff_ffff)
            < 0x1_0000_0000_0000_0000u128) by (bit_vector);
        assert(hi == (hi & 0xffff_ffff_ffff_ffff) + (hi >> 64u128) * 0x1_0000_0000_0000_0000u128
            && (hi >> 64u128) < 0x1_0000_0000_0000_0000u128 && (hi & 0xffff_ffff_ffff_ffff)
            < 0x1_0000_0000_0000_0000u128) by (bit_vector);
        let l = [l0, l1, l2, l3];
        assert(two_pow_128() == two_pow_64() * two_pow_64()) by (nonlinear_arith);
        assert(limbs_value(l@) == self.value()) by (nonlinear_arith)
            requires
                l@[0] + l@[1] * two_pow_64() == lo,
                l@[2] + l@[3] * two_pow_64() == hi,
                two_pow_128() == two_pow_64() * two_pow_64(),
                limbs_value(l@) == l@[0] + l@[1] * two_pow_64() + (l@[2] + l@[3] * two_pow_64())
                    * two_pow_128(),
                self.value() == hi * two_pow_128() + lo,
        ;
        l
    }

    /// The decimal digits of the value, as 256-bit integers display.
    pub fn to_string(&self) -> (s: String)
        ensures
            s@ == decimal(self.value() as nat),
    {
        let l = self.limbs();
        u256_text(l)
    }
}

/// A 20-byte account address.
#[derive(Clone, Copy, Debug, PartialEq, Eq)]
pub struct Address {
    pub bytes: [u8; 20],
}

impl Address {
    pub fn zero() -> (a: Address)
        ensures
            forall|i: int| 0 <= i < 20 ==> a.bytes@[i] == 0,
    {
        Address { bytes: [0u8; 20] }
    }

    /// Whether every byte is zero.
    pub open spec fn spec_is_zero(self) -> bool {
        forall|i: int| 0 <= i < 20 ==> self.bytes@[i] == 0
    }

    /// Whether both addresses hold the same bytes.
    pub fn same_as(&self, other: &Address) -> (b: bool)
        ensures
            b == (self.bytes@ == other.bytes@),
    {
        let mut i: usize = 0;
        while i < 20
            invariant
                i <= 20,
                forall|k: int| 0 <= k < i ==> self.bytes@[k] == other.bytes@[k],
            decreases 20 - i,
        {
            if self.bytes[i] != other.bytes[i] {
                return false;
            }
            i = i + 1;
        }
        assert(self.bytes@ =~= other.bytes@);
        true
    }

    pub fn is_zero(&self) -> (b: bool)
        ensures
            b == self.spec_is_zero(),
    {
        let mut i: usize = 0;
        while i < 20
            invariant
                i <= 20,
                forall|k: int| 0 <= k < i ==> self.bytes@[k] == 0,
            decreases 20 - i,
        {
            if self.bytes[i] != 0 {
                return false;
            }
            i = i + 1;
        }
        true
    }
}

/// The value of hex digit `c` (either case), or `None` when `c` is no hex digit.
pub open spec fn hex_digit(c: char) -> Option<int> {
    if '0' <= c <= '9' {
        Some(c as int - '0' as int)
    } else if 'a' <= c <= 'f' {
        Some(c as int - 'a' as int + 10)
    } else if 'A' <= c <= 'F' {
        Some(c as int - 'A' as int + 10)
    } else {
        None
    }
}

/// `s` without one leading `0x` or `0X`.
pub open spec fn strip_hex_prefix(s: Seq<char>) -> Seq<char> {
    if s.len() >= 2 && s[0] == '0' && (s[1] == 'x' || s[1] == 'X') {
        s.skip(2)
    } else {
        s
    }
}

/// Whether `s` spells an address: an optional `0x` or `0X`, then exactly 40
/// hex digits.
pub open spec fn is_address_text(s: Seq<char>) -> bool {
    let d = strip_hex_prefix(s);
    d.len() == 40 && forall|i: int| 0 <= i < 40 ==> (#[trigger] hex_digit(d[i])) is Some
}

/// The 20 bytes that an address text spells, two digits per byte, high digit first.
pub open spec fn address_bytes(s: Seq<char>) -> Seq<u8> {
    let d = strip_hex_prefix(s);
    Seq::new(20, |j: int| (hex_digit(d[2 * j])->0 * 16 + hex_digit(d[2 * j + 1])->0) as u8)
}

/// The EIP-55 mixed-case checksum spelling of an address, as
/// `alloy_primitives::Address` displays it.
pub uninterp spec fn checksum_text(bytes: Seq<u8>) -> Seq<char>;

#[verifier::external_type_specification]
#[verifier::external_body]
pub struct ExFromHexError(alloy_primitives::hex::FromHexError);

/// Parses `s` with `FromStr` for `alloy_primitives::Address`, which hex-decodes
/// it with `const_hex`: one leading `0x` or `0X` is stripped, and exactly 40 hex
/// digits of either case must remain; each pair of digits gives one byte.
#[verifier::external_body]
fn parse_address_hex(s: &str) -> (r: Result<[u8; 20], alloy_primitives::hex::FromHexError>)
    ensures
        r is Ok <==> is_address_text(s@),
        r matches Ok(b) ==> b@ == address_bytes(s@),
{
    s.parse::<alloy_primitives::Address>().map(|a| a.0.0)
}

/// The `Display` text of a hex decoding error; nothing about it is claimed.
#[verifier::external_body]
fn hex_error_text(e: &alloy_primitives::hex::FromHexError) -> String {
    e.to_string()
}

/// Renders an address with `Display` for `alloy_primitives::Address`, which
/// writes its EIP-55 checksum spelling; the text is named, not spelled out.
#[verifier::external_body]
fn address_text(bytes: [u8; 20]) -> (s: String)
    ensures
        s@ == checksum_text(bytes@),
{
    alloy_primitives::Address::new(bytes).to_string()
}

/// Why a text is not an address.
#[derive(Debug)]
pub struct AddressParseError {
    pub message: String,
}

impl Address {
    /// Parses an address from hex text: an optional `0x` or `0X`, then 40 hex digits.
    pub fn parse(s: &str) -> (r: Result<Address, AddressParseError>)
        ensures
            r is Ok <==> is_address_text(s@),
            r matches Ok(a) ==> a.bytes@ == address_bytes(s@),
    {
        match parse_address_hex(s) {
            Ok(bytes) => Ok(Address { bytes }),
            Err(e) => Err(AddressParseError { message: hex_error_text(&e) }),
        }
    }

    /// The EIP-55 checksum spelling, e.g. `0xd8dA6BF26964aF9D7eEd9e03E53415D37aA96045`.
    pub fn to_string(&self) -> (s: String)
        ensures
            s@ == checksum_text(self.bytes@),
    {
        address_text(self.bytes)
    }
}

/// A snapshot of balances across layers for consistency checking.
#[derive(Clone, Copy, Debug)]
pub struct BalanceSnapshot {
    pub address: Address,
    pub l1_balance: U256,
    pub l2_balance: U256,
    pub l3_balance: Option<U256>,
    pub block_l1: u64,
    pub block_l2: u64,
    pub block_l3: Option<u64>,
}

/// Container identity for Docker fault injection.
#[derive(Clone, Debug)]
pub struct ContainerTarget {
    pub name: String,
    pub service: String,
    pub layer: Layer,
}

/// What a container target names.
pub struct TargetView {
    pub name: Seq<char>,
    pub service: Seq<char>,
    pub layer: Layer,
}

impl View for ContainerTarget {
    type V = TargetView;

    open spec fn view(&self) -> TargetView {
        TargetView { name: self.name@, service: self.service@, layer: self.layer }
    }
}

impl ContainerTarget {
    /// A target whose name and service are both `service`.
    pub fn service(service: &str, layer: Layer) -> (t: ContainerTarget)
        ensures
            t@ == (TargetView { name: service@, service: service@, layer }),
    {
        ContainerTarget { name: String::from_str(service), service: String::from_str(service), layer }
    }

    /// A copy with the same name, service and layer.
    pub fn duplicate(&self) -> (t: ContainerTarget)
        ensures
            t@ == self@,
    {
        ContainerTarget { name: self.name.clone(), service: self.service.clone(), layer: self.layer }
    }
}

/// The views of a sequence of targets.
pub open spec fn targets_view(v: Seq<ContainerTarget>) -> Seq<TargetView> {
    Seq::new(v.len(), |i: int| v[i]@)
}

/// Copies a list of targets.
pub fn duplicate_targets(v: &Vec<ContainerTarget>) -> (r: Vec<ContainerTarget>)
    ensures
        targets_view(r@) == targets_view(v@),
{
    let mut r: Vec<ContainerTarget> = Vec::new();
    let mut i: usize = 0;
    while i < v.len()
        invariant
            i <= v@.len(),
            r@.len() == i,
            targets_view(r@) == targets_view(v@).take(i as int),
        decreases v@.len() - i,
    {
        let ghost prev = r@;
        let t = v[i].duplicate();
        r.push(t);
        assert(r@ == prev.push(t));
        assert(r@.len() == i + 1);
        assert(targets_view(r@).len() == i + 1);
        assert(t@ == v@[i as int]@);
        assert forall|k: int| 0 <= k < i + 1 implies #[trigger] targets_view(r@)[k] == targets_view(
            v@,
        ).take(i + 1)[k] by {
            if k < i {
                assert(targets_view(prev)[k] == targets_view(v@).take(i as int)[k]);
                assert(r@[k] == prev[k]);
            } else {
                assert(r@[k] == t);
            }
        }
        assert(targets_view(r@) =~= targets_view(v@).take(i + 1));
        i = i + 1;
    }
    assert(targets_view(v@).take(v@.len() as int) =~= targets_view(v@));
    r
}

/// What kind of fault to inject at the infrastructure level.
#[derive(Clone, Debug)]
pub enum InfraFault {
    PauseContainer { target: ContainerTarget, duration_ms: u64 },
    KillContainer { target: ContainerTarget },
    RestartContainer { target: ContainerTarget },
    NetworkPartition { targets: Vec<ContainerTarget>, duration_ms: u64 },
    DiskPressure { target: ContainerTarget },
}

/// What a fault names.
pub enum FaultView {
    PauseContainer { target: TargetView, duration_ms: u64 },
    KillContainer { target: TargetView },
    RestartContainer { target: TargetView },
    NetworkPartition { targets: Seq<TargetView>, duration_ms: u64 },
    DiskPressure { target: TargetView },
}

impl View for InfraFault {
    type V = FaultView;

    open spec fn view(&self) -> FaultView {
        match self {
            InfraFault::PauseContainer { target, duration_ms } => FaultView::PauseContainer {
                target: target@,
                duration_ms: *duration_ms,
            },
            InfraFault::KillContainer { target } => FaultView::KillContainer { target: target@ },
            InfraFault::RestartContainer { target } => FaultView::RestartContainer { target: target@ },
            InfraFault::NetworkPartition { targets, duration_ms } => FaultView::NetworkPartition {
                targets: targets_view(targets@),
                duration_ms: *duration_ms,
            },
            InfraFault::DiskPressure { target } => FaultView::DiskPressure { target: target@ },
        }
    }
}

/// The names of `ts` joined with `", "`.
pub open spec fn joined_names(ts: Seq<TargetView>) -> Seq<char>
    decreases ts.len(),
{
    if ts.len() == 0 {
        Seq::empty()
    } else if ts.len() == 1 {
        ts[0].name
    } else {
        joined_names(ts.drop_last()) + ", "@ + ts.last().name
    }
}

/// The one-line description of a fault.
pub open spec fn fault_text(f: FaultView) -> Seq<char> {
    match f {
        FaultView::PauseContainer { target, duration_ms } => "PAUSE "@ + target.name + " for "@
            + decimal(duration_ms as nat) + "ms"@,
        FaultView::KillContainer { target } => "KILL "@ + target.name,
        FaultView::RestartContainer { target } => "RESTART "@ + target.name,
        FaultView::NetworkPartition { targets, duration_ms } => "PARTITION ["@ + joined_names(
            targets,
        ) + "] for "@ + decimal(duration_ms as nat) + "ms"@,
        FaultView::DiskPressure { target } => "DISK_PRESSURE "@ + target.name,
    }
}

/// The names of `ts` joined with `", "`.
fn join_names(ts: &Vec<ContainerTarget>) -> (s: String)
    ensures
        s@ == joined_names(targets_view(ts@)),
{
    let mut s = String::new();
    let mut i: usize = 0;
    while i < ts.len()
        invariant
            i <= ts@.len(),
            s@ == joined_names(targets_view(ts@).take(i as int)),
        decreases ts@.len() - i,
    {
        let ghost prev = targets_view(ts@).take(i as int);
        let ghost next = targets_view(ts@).take(i + 1);
        assert(next.drop_last() =~= prev);
        if i > 0 {
            s.append(", ");
        }
        s.append(ts[i].name.as_str());
        i = i + 1;
    }
    assert(targets_view(ts@).take(ts@.len() as int) =~= targets_view(ts@));
    s
}

impl InfraFault {
    /// One-line description, e.g. `PAUSE sequencer for 500ms`.
    pub fn to_string(&self) -> (s: String)
        ensures
            s@ == fault_text(self@),
    {
        match self {
            InfraFault::PauseContainer { target, duration_ms } => {
                let mut s = String::from_str("PAUSE ");
                s.append(target.name.as_str());
                s.append(" for ");
                s.append(u64_text(*duration_ms).as_str());
                s.append("ms");
                s
            },
            InfraFault::KillContainer { target } => {
                let mut s = String::from_str("KILL ");
                s.append(target.name.as_str());
                s
            },
            InfraFault::RestartContainer { target } => {
                let mut s = String::from_str("RESTART ");
                s.append(target.name.as_str());
                s
            },
            InfraFault::NetworkPartition { targets, duration_ms } => {
                let mut s = String::from_str("PARTITION [");
                s.append(join_names(targets).as_str());
                s.append("] for ");
                s.append(u64_text(*duration_ms).as_str());
                s.append("ms");
                s
            },
            InfraFault::DiskPressure { target } => {
                let mut s = String::from_str("DISK_PRESSURE ");
                s.append(target.name.as_str());
                s
            },
        }
    }
}

} // verus!
