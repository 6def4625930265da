use vstd::prelude::*;

use crate::locations::{normalize_root, root_text_spec};
use crate::paths::{join_path, join_spec, path_is_under_root, under_root};
use crate::seqs::{count_where, keep};
use crate::text::{
    concat2, decimal, u64_to_string, is_alnum, is_ascii_alnum_char, is_char, nonempty_pred, owned, push_char, replace_all,
    replace_seq, split_by, split_char, str_eq, trim, trim_seq, views,
};
use crate::update::{is_windows, os_is_windows};

verus! {

// ---------------------------------------------------------------------------
// Rules
// ---------------------------------------------------------------------------

/// How safe it is to remove an entry.
#[derive(Debug, Clone, Copy, PartialEq, Eq, Structural)]
pub enum Risk {
    Keep,
    Caution,
    Cleanable,
}

/// What kind of thing an entry is.
#[derive(Debug, Clone, Copy, PartialEq, Eq, Structural)]
pub enum Category {
    Runtime,
    Cache,
    Config,
    Temp,
    Toolchain,
    PackageManager,
    AiTool,
    Ide,
    Container,
    Mobile,
    BuildTool,
    Drive,
}

/// How a risk is computed from a rule's risk factors.
#[derive(Debug, Clone, PartialEq, Eq)]
pub struct RiskModel {
    pub default: Risk,
    /// The weight of each named factor, as a map: a name's first entry is the
    /// one read, so a list stands for the map that keeps it.
    pub factors: Vec<(String, i32)>,
}

/// A location that the scanner looks at.
#[derive(Debug, Clone, PartialEq, Eq)]
pub struct RuleSpec {
    pub id: String,
    pub name_key: String,
    pub category: Category,
    /// The path template per platform name, or for `all` platforms, as a map:
    /// a name's first entry is the one read.
    pub path_by_platform: Vec<(String, String)>,
    pub risk_factors: Vec<String>,
    pub depends_on: Vec<String>,
}

/// The scanner's rules.
#[derive(Debug, Clone, PartialEq, Eq)]
pub struct RuleFile {
    pub risk_model: RiskModel,
    pub rules: Vec<RuleSpec>,
}

/// The weight of the first factor with this name.
pub open spec fn factor_value(factors: Seq<(String, i32)>, name: Seq<char>) -> Option<i32>
    decreases factors.len(),
{
    if factors.len() == 0 {
        None
    } else if factors[0].0@ == name {
        Some(factors[0].1)
    } else {
        factor_value(factors.drop_first(), name)
    }
}

/// The weights of the named factors that the model knows, in order.
pub open spec fn found_weights(names: Seq<String>, factors: Seq<(String, i32)>) -> Seq<i32>
    decreases names.len(),
{
    if names.len() == 0 {
        Seq::empty()
    } else {
        let prev = found_weights(names.drop_last(), factors);
        match factor_value(factors, names.last()@) {
            Some(v) => prev.push(v),
            None => prev,
        }
    }
}

pub open spec fn sum_i32(s: Seq<i32>) -> int
    decreases s.len(),
{
    if s.len() == 0 {
        0
    } else {
        sum_i32(s.drop_last()) + s.last()
    }
}

/// A rule's score after its first `k` factors: 50 plus their weights.
pub open spec fn score_after(rule: RuleSpec, model: RiskModel, k: int) -> int {
    50 + sum_i32(found_weights(rule.risk_factors@.take(k), model.factors@))
}

/// A rule's score: 50 plus the weights of its known factors.
pub open spec fn risk_score(rule: RuleSpec, model: RiskModel) -> int {
    score_after(rule, model, rule.risk_factors@.len() as int)
}

/// Every running total of the score fits in an `i32`.
pub open spec fn score_fits(rule: RuleSpec, model: RiskModel) -> bool {
    forall|k: int|
        0 <= k <= rule.risk_factors@.len() ==> i32::MIN <= #[trigger] score_after(rule, model, k)
            <= i32::MAX
}

/// Cleanable from 75 up, keep at 20 and below, otherwise the model's default.
pub open spec fn risk_for_score(score: int, default: Risk) -> Risk {
    if score >= 75 {
        Risk::Cleanable
    } else if score <= 20 {
        Risk::Keep
    } else {
        default
    }
}

fn lookup_factor(factors: &Vec<(String, i32)>, name: &str) -> (r: Option<i32>)
    ensures
        r == factor_value(factors@, name@),
{
    let mut i: usize = 0;
    assert(factors@.subrange(0, factors.len() as int) == factors@);
    while i < factors.len()
        invariant
            i <= factors.len(),
            factor_value(factors@, name@) == factor_value(
                factors@.subrange(i as int, factors.len() as int),
                name@,
            ),
        decreases factors.len() - i,
    {
        let ghost rest = factors@.subrange(i as int, factors.len() as int);
        assert(rest.drop_first() == factors@.subrange(i + 1, factors.len() as int));
        if str_eq(factors[i].0.as_str(), name) {
            return Some(factors[i].1);
        }
        i += 1;
    }
    None
}

/// The risk of a rule under a model.
pub fn calculate_risk(rule: &RuleSpec, model: &RiskModel) -> (r: Risk)
    requires
        score_fits(*rule, *model),
    ensures
        r == risk_for_score(risk_score(*rule, *model), model.default),
{
    let names = &rule.risk_factors;
    let mut score: i32 = 50;
    let mut i: usize = 0;
    assert(names@.take(0) == Seq::<String>::empty());
    while i < names.len()
        invariant
            i <= names.len(),
            names == &rule.risk_factors,
            score_fits(*rule, *model),
            score == score_after(*rule, *model, i as int),
        decreases names.len() - i,
    {
        assert(names@.take(i + 1).drop_last() == names@.take(i as int));
        assert(names@.take(i + 1).last() == names@[i as int]);
        let found = lookup_factor(&model.factors, names[i].as_str());
        assert(i32::MIN <= score_after(*rule, *model, i + 1) <= i32::MAX);
        let ghost prev = found_weights(names@.take(i as int), model.factors@);
        match found {
            Some(v) => {
                assert(found_weights(names@.take(i + 1), model.factors@) == prev.push(v));
                assert(prev.push(v).drop_last() == prev);
                assert(sum_i32(prev.push(v)) == sum_i32(prev) + v);
                score = score + v;
            },
            None => {
                assert(found_weights(names@.take(i + 1), model.factors@) == prev);
            },
        }
        i += 1;
    }
    assert(names@.take(names.len() as int) == names@);
    if score >= 75 {
        Risk::Cleanable
    } else if score <= 20 {
        Risk::Keep
    } else {
        model.default
    }
}

/// The value stored under the first key equal to `key`.
pub open spec fn pair_lookup(pairs: Seq<(String, String)>, key: Seq<char>) -> Option<Seq<char>>
    decreases pairs.len(),
{
    if pairs.len() == 0 {
        None
    } else if pairs[0].0@ == key {
        Some(pairs[0].1@)
    } else {
        pair_lookup(pairs.drop_first(), key)
    }
}

fn lookup_pair(pairs: &Vec<(String, String)>, key: &str) -> (r: Option<String>)
    ensures
        r matches Some(v) ==> pair_lookup(pairs@, key@) == Some(v@),
        r is None ==> pair_lookup(pairs@, key@) is None,
{
    let mut i: usize = 0;
    assert(pairs@.subrange(0, pairs.len() as int) == pairs@);
    while i < pairs.len()
        invariant
            i <= pairs.len(),
            pair_lookup(pairs@, key@) == pair_lookup(
                pairs@.subrange(i as int, pairs.len() as int),
                key@,
            ),
        decreases pairs.len() - i,
    {
        let ghost rest = pairs@.subrange(i as int, pairs.len() as int);
        assert(rest.drop_first() == pairs@.subrange(i + 1, pairs.len() as int));
        if str_eq(pairs[i].0.as_str(), key) {
            return Some(pairs[i].1.clone());
        }
        i += 1;
    }
    None
}

/// A rule's path template for a platform, else its template for all.
pub open spec fn rule_path_spec(rule: RuleSpec, os: Seq<char>) -> Option<Seq<char>> {
    match pair_lookup(rule.path_by_platform@, os) {
        Some(p) => Some(p),
        None => pair_lookup(rule.path_by_platform@, "all"@),
    }
}

/// A rule's path template for a platform.
pub fn rule_path_for_os(rule: &RuleSpec, os: &str) -> (r: Option<String>)
    ensures
        r matches Some(p) ==> rule_path_spec(*rule, os@) == Some(p@),
        r is None ==> rule_path_spec(*rule, os@) is None,
{
    match lookup_pair(&rule.path_by_platform, os) {
        Some(p) => Some(p),
        None => lookup_pair(&rule.path_by_platform, "all"),
    }
}

// ---------------------------------------------------------------------------
// Path templates
// ---------------------------------------------------------------------------

/// The places that path templates refer to. The optional ones are the
/// environment's values, with defaults under the home directory.
#[derive(Debug, Clone, PartialEq, Eq)]
pub struct PathContext {
    pub home: String,
    pub local_app_data: Option<String>,
    pub app_data: Option<String>,
    pub program_data: Option<String>,
    pub temp: String,
    pub os: String,
}

pub open spec fn local_dir(ctx: PathContext) -> Seq<char> {
    match ctx.local_app_data {
        Some(v) => v@,
        None => join_spec(join_spec(ctx.home@, "AppData"@, ctx.os@), "Local"@, ctx.os@),
    }
}

pub open spec fn roaming_dir(ctx: PathContext) -> Seq<char> {
    match ctx.app_data {
        Some(v) => v@,
        None => join_spec(join_spec(ctx.home@, "AppData"@, ctx.os@), "Roaming"@, ctx.os@),
    }
}

pub open spec fn program_data_dir(ctx: PathContext) -> Seq<char> {
    match ctx.program_data {
        Some(v) => v@,
        None => "C:\\ProgramData"@,
    }
}

/// A template with `{home}`, `{local}`, `{roaming}`, `{programData}` and
/// `{temp}` filled in, in that order; on Windows `/` becomes `\`.
pub open spec fn expand_rule_spec(template: Seq<char>, ctx: PathContext) -> Seq<char> {
    let v = replace_seq(
        replace_seq(
            replace_seq(
                replace_seq(replace_seq(template, "{home}"@, ctx.home@), "{local}"@, local_dir(ctx)),
                "{roaming}"@,
                roaming_dir(ctx),
            ),
            "{programData}"@,
            program_data_dir(ctx),
        ),
        "{temp}"@,
        ctx.temp@,
    );
    if is_windows(ctx.os@) {
        replace_seq(v, "/"@, "\\"@)
    } else {
        v
    }
}

fn app_data_default(ctx: &PathContext, leaf: &str) -> (r: String)
    ensures
        r@ == join_spec(join_spec(ctx.home@, "AppData"@, ctx.os@), leaf@, ctx.os@),
{
    let a = join_path(ctx.home.as_str(), "AppData", ctx.os.as_str());
    join_path(a.as_str(), leaf, ctx.os.as_str())
}

/// A path template with its places filled in.
pub fn expand_rule_path(template: &str, ctx: &PathContext) -> (r: String)
    ensures
        r@ == expand_rule_spec(template@, *ctx),
{
    proof {
        reveal_strlit("{home}");
        reveal_strlit("{local}");
        reveal_strlit("{roaming}");
        reveal_strlit("{programData}");
        reveal_strlit("{temp}");
        reveal_strlit("/");
    }
    let local = match &ctx.local_app_data {
        Some(v) => v.clone(),
        None => app_data_default(ctx, "Local"),
    };
    let roaming = match &ctx.app_data {
        Some(v) => v.clone(),
        None => app_data_default(ctx, "Roaming"),
    };
    let program_data = match &ctx.program_data {
        Some(v) => v.clone(),
        None => owned("C:\\ProgramData"),
    };
    let a = replace_all(template, "{home}", ctx.home.as_str());
    let b = replace_all(a.as_str(), "{local}", local.as_str());
    let c = replace_all(b.as_str(), "{roaming}", roaming.as_str());
    let d = replace_all(c.as_str(), "{programData}", program_data.as_str());
    let e = replace_all(d.as_str(), "{temp}", ctx.temp.as_str());
    if os_is_windows(ctx.os.as_str()) {
        replace_all(e.as_str(), "/", "\\")
    } else {
        e
    }
}

// ---------------------------------------------------------------------------
// Scan specs
// ---------------------------------------------------------------------------

/// One location to scan.
#[derive(Debug, Clone, PartialEq, Eq)]
pub struct EnvSpec {
    pub id: String,
    pub name_key: String,
    pub path: String,
    pub category: Category,
    pub risk: Risk,
    pub description_key: String,
}

impl EnvSpec {
    /// A field-by-field copy.
    pub fn duplicate(&self) -> (r: EnvSpec)
        ensures
            r == *self,
    {
        EnvSpec {
            id: self.id.clone(),
            name_key: self.name_key.clone(),
            path: self.path.clone(),
            category: self.category,
            risk: self.risk,
            description_key: self.description_key.clone(),
        }
    }
}

/// A scan spec from its parts.
pub fn spec_owned(
    id: String,
    name_key: String,
    path: String,
    category: Category,
    risk: Risk,
    description_key: String,
) -> (r: EnvSpec)
    ensures
        r.id == id,
        r.name_key == name_key,
        r.path == path,
        r.category == category,
        r.risk == risk,
        r.description_key == description_key,
{
    EnvSpec { id, name_key, path, category, risk, description_key }
}

/// The rules that have a path on this platform.
pub open spec fn has_path_pred(os: Seq<char>) -> spec_fn(RuleSpec) -> bool {
    |rule: RuleSpec| rule_path_spec(rule, os) is Some
}

/// Every rule's score fits in an `i32` along the way.
pub open spec fn rules_fit(file: RuleFile) -> bool {
    forall|i: int| 0 <= i < file.rules@.len() ==> score_fits(#[trigger] file.rules@[i], file.risk_model)
}

/// The scan spec built from a rule that has a path on the platform.
pub open spec fn spec_from_rule(s: EnvSpec, rule: RuleSpec, model: RiskModel, ctx: PathContext) -> bool {
    &&& s.id@ == rule.id@
    &&& s.name_key@ == rule.name_key@
    &&& rule_path_spec(rule, ctx.os@) matches Some(t) && s.path@ == expand_rule_spec(t, ctx)
    &&& s.category == rule.category
    &&& s.risk == risk_for_score(risk_score(rule, model), model.default)
    &&& s.description_key@ == "desc."@ + rule.id@
}

/// The specs of the rules that have a path on the platform, in rule order.
pub open spec fn environment_specs_ok(r: Seq<EnvSpec>, file: RuleFile, ctx: PathContext) -> bool {
    let rules = keep(file.rules@, has_path_pred(ctx.os@));
    &&& r.len() == rules.len()
    &&& forall|j: int| 0 <= j < r.len() ==> spec_from_rule(#[trigger] r[j], rules[j], file.risk_model, ctx)
}

/// The scan specs of the rules that apply on the platform.
pub fn environment_specs(file: &RuleFile, ctx: &PathContext) -> (r: Vec<EnvSpec>)
    requires
        rules_fit(*file),
    ensures
        environment_specs_ok(r@, *file, *ctx),
{
    let mut out: Vec<EnvSpec> = Vec::new();
    let mut i: usize = 0;
    while i < file.rules.len()
        invariant
            i <= file.rules.len(),
            rules_fit(*file),
            out@.len() == keep(file.rules@.take(i as int), has_path_pred(ctx.os@)).len(),
            forall|j: int|
                0 <= j < out@.len() ==> spec_from_rule(
                    #[trigger] out@[j],
                    keep(file.rules@.take(i as int), has_path_pred(ctx.os@))[j],
                    file.risk_model,
                    *ctx,
                ),
        decreases file.rules.len() - i,
    {
        let rule = &file.rules[i];
        let ghost prefix = file.rules@.take(i as int);
        assert(file.rules@.take(i + 1).drop_last() == prefix);
        assert(file.rules@.take(i + 1).last() == *rule);
        match rule_path_for_os(rule, ctx.os.as_str()) {
            Some(template) => {
                assert(score_fits(file.rules@[i as int], file.risk_model));
                let risk = calculate_risk(rule, &file.risk_model);
                let path = expand_rule_path(template.as_str(), ctx);
                let description_key = concat2("desc.", rule.id.as_str());
                let s = spec_owned(
                    rule.id.clone(),
                    rule.name_key.clone(),
                    path,
                    rule.category,
                    risk,
                    description_key,
                );
                out.push(s);
            },
            None => {},
        }
        i += 1;
    }
    assert(file.rules@.take(file.rules.len() as int) == file.rules@);
    out
}


/// Whether a path lies under one of the roots.
pub open spec fn under_some_root(path: Seq<char>, roots: Seq<String>, os: Seq<char>) -> bool {
    exists|k: int| 0 <= k < roots.len() && under_root(path, #[trigger] roots[k]@, os)
}

pub open spec fn in_roots_pred(roots: Seq<String>, os: Seq<char>) -> spec_fn(EnvSpec) -> bool {
    |s: EnvSpec| under_some_root(s.path@, roots, os)
}

fn under_any(path: &str, roots: &Vec<String>, os: &str) -> (r: bool)
    ensures
        r == under_some_root(path@, roots@, os@),
{
    let mut k: usize = 0;
    while k < roots.len()
        invariant
            k <= roots.len(),
            forall|j: int| 0 <= j < k ==> !under_root(path@, #[trigger] roots@[j]@, os@),
        decreases roots.len() - k,
    {
        if path_is_under_root(path, roots[k].as_str(), os) {
            return true;
        }
        k += 1;
    }
    false
}

/// The specs whose path lies under one of the roots, in order.
pub fn filter_specs_by_roots(specs: &Vec<EnvSpec>, roots: &Vec<String>, os: &str) -> (r: Vec<EnvSpec>)
    ensures
        r@ == keep(specs@, in_roots_pred(roots@, os@)),
{
    let mut out: Vec<EnvSpec> = Vec::new();
    let mut i: usize = 0;
    while i < specs.len()
        invariant
            i <= specs.len(),
            out@ == keep(specs@.take(i as int), in_roots_pred(roots@, os@)),
        decreases specs.len() - i,
    {
        assert(specs@.take(i + 1).drop_last() == specs@.take(i as int));
        assert(specs@.take(i + 1).last() == specs@[i as int]);
        if under_any(specs[i].path.as_str(), roots, os) {
            out.push(specs[i].duplicate());
        }
        i += 1;
    }
    assert(specs@.take(specs.len() as int) == specs@);
    out
}

/// Filtering by roots keeps only specs that were given and whose path lies
/// under one of the roots.
pub proof fn law_filtered_specs_lie_under_roots(specs: Seq<EnvSpec>, roots: Seq<String>, os: Seq<char>)
    ensures
        forall|k: int|
            0 <= k < keep(specs, in_roots_pred(roots, os)).len() ==> under_some_root(
                (#[trigger] keep(specs, in_roots_pred(roots, os))[k]).path@,
                roots,
                os,
            ) && specs.contains(keep(specs, in_roots_pred(roots, os))[k]),
{
    crate::seqs::lemma_keep_sound(specs, in_roots_pred(roots, os));
}

/// Which locations a scan covers.
#[derive(Debug, Clone, Copy, PartialEq, Eq, Structural)]
pub enum ScanMode {
    Developer,
    Drive,
    Full,
}

#[derive(Debug, Clone, PartialEq, Eq)]
pub struct ScanRequest {
    pub mode: ScanMode,
    pub drive: Option<String>,
}

/// What a scan covers: every rule in developer mode; in drive mode the rules
/// under the chosen root, which must be given and exist
/// (`drive_exists` tells whether the completed root text exists); in full
/// mode the rules under any available root.
pub open spec fn scan_specs_ok(
    r: Result<Vec<EnvSpec>, String>,
    request: ScanRequest,
    file: RuleFile,
    ctx: PathContext,
    drive_exists: bool,
    available: Seq<String>,
) -> bool {
    match request.mode {
        ScanMode::Developer => r matches Ok(v) && environment_specs_ok(v@, file, ctx),
        ScanMode::Drive => match request.drive {
            None => r matches Err(e) && e@ == "Drive is required"@,
            Some(d) => if !drive_exists {
                r matches Err(e) && e@ == "Drive does not exist"@
            } else {
                r matches Ok(v) && exists|all: Seq<EnvSpec>, root: String|
                    environment_specs_ok(all, file, ctx) && root@ == root_text_spec(d@) && v@
                        == keep(all, in_roots_pred(seq![root], ctx.os@))
            },
        },
        ScanMode::Full => r matches Ok(v) && exists|all: Seq<EnvSpec>|
            environment_specs_ok(all, file, ctx) && v@ == keep(all, in_roots_pred(available, ctx.os@)),
    }
}

/// The scan specs a request covers.
pub fn scan_specs(
    request: &ScanRequest,
    file: &RuleFile,
    ctx: &PathContext,
    drive_exists: bool,
    available: &Vec<String>,
) -> (r: Result<Vec<EnvSpec>, String>)
    requires
        rules_fit(*file),
    ensures
        scan_specs_ok(r, *request, *file, *ctx, drive_exists, available@),
{
    let specs = environment_specs(file, ctx);
    match request.mode {
        ScanMode::Developer => Ok(specs),
        ScanMode::Drive => {
            let drive = match &request.drive {
                Some(d) => d,
                None => {
                    return Err(owned("Drive is required"));
                },
            };
            let root = match normalize_root(drive.as_str(), drive_exists) {
                Ok(root) => root,
                Err(e) => {
                    return Err(e);
                },
            };
            let mut roots: Vec<String> = Vec::new();
            roots.push(root);
            assert(roots@ == seq![roots@[0]]);
            Ok(filter_specs_by_roots(&specs, &roots, ctx.os.as_str()))
        },
        ScanMode::Full => Ok(filter_specs_by_roots(&specs, available, ctx.os.as_str())),
    }
}

// ---------------------------------------------------------------------------
// Sizes
// ---------------------------------------------------------------------------

/// How much lies under a path, as far as it was counted.
#[derive(Debug, Clone, Copy, PartialEq, Eq, Structural)]
pub struct SizeEstimate {
    pub bytes: u64,
    pub files: u64,
    pub dirs: u64,
    pub truncated: bool,
}

pub open spec fn zero_estimate() -> SizeEstimate {
    SizeEstimate { bytes: 0, files: 0, dirs: 0, truncated: false }
}

/// When a size walk gives up: after this many entries or milliseconds.
#[derive(Debug, Clone, Copy, PartialEq, Eq, Structural)]
pub struct ScanLimits {
    pub max_entries: u64,
    pub max_duration_ms: u64,
}

/// The limits of an explicit deep scan.
pub fn deep_limits() -> (r: ScanLimits)
    ensures
        r == (ScanLimits { max_entries: 600_000, max_duration_ms: 10_000 }),
{
    ScanLimits { max_entries: 600_000, max_duration_ms: 10_000 }
}

/// The limits for each child of a deep scan and for cleanup previews.
pub fn child_limits() -> (r: ScanLimits)
    ensures
        r == (ScanLimits { max_entries: 12_000, max_duration_ms: 420 }),
{
    ScanLimits { max_entries: 12_000, max_duration_ms: 420 }
}

/// The limits of the quick estimate during the first scan.
pub fn startup_size_limits() -> (r: ScanLimits)
    ensures
        r == (ScanLimits { max_entries: 900, max_duration_ms: 18 }),
{
    ScanLimits { max_entries: 900, max_duration_ms: 18 }
}

/// How long one detection probe may run, in milliseconds.
pub fn detection_timeout() -> (r: u64)
    ensures
        r == 900,
{
    900
}

/// How long one package manager probe may run, in milliseconds.
pub fn manager_detection_timeout() -> (r: u64)
    ensures
        r == 650,
{
    650
}

/// Walker threads: one for short or small walks, else the machine's
/// parallelism (4 when unknown) kept between 2 and 8.
pub open spec fn walker_threads_spec(limits: ScanLimits, parallelism: Option<usize>) -> int {
    if limits.max_duration_ms <= 30 || limits.max_entries <= 1000 {
        1
    } else {
        let p: int = match parallelism {
            Some(n) => n as int,
            None => 4,
        };
        if p < 2 {
            2
        } else if p > 8 {
            8
        } else {
            p
        }
    }
}

/// How many threads a size walk uses.
pub fn walker_threads(limits: ScanLimits, parallelism: Option<usize>) -> (r: usize)
    ensures
        r == walker_threads_spec(limits, parallelism),
{
    if limits.max_duration_ms <= 30 || limits.max_entries <= 1000 {
        return 1;
    }
    let p = match parallelism {
        Some(n) => n,
        None => 4,
    };
    if p < 2 {
        2
    } else if p > 8 {
        8
    } else {
        p
    }
}

/// What the file system says of the path a walk starts from.
#[derive(Debug, Clone, Copy, PartialEq, Eq, Structural)]
pub enum RootKind {
    /// It cannot be read.
    Unreadable,
    Symlink,
    /// A file of this length.
    File(u64),
    /// A directory or anything else: walk it.
    Other,
}

/// The estimate of a walk's start when no walk is needed: nothing for an
/// unreadable path, nothing but marked cut short for a link, the file itself.
pub fn walk_start_estimate(root: RootKind) -> (r: Option<SizeEstimate>)
    ensures
        root is Unreadable ==> r == Some(zero_estimate()),
        root is Symlink ==> r == Some(SizeEstimate { bytes: 0, files: 0, dirs: 0, truncated: true }),
        root matches RootKind::File(len) ==> r == Some(
            SizeEstimate { bytes: len, files: 1, dirs: 0, truncated: false },
        ),
        root is Other ==> r is None,
{
    match root {
        RootKind::Unreadable => Some(SizeEstimate { bytes: 0, files: 0, dirs: 0, truncated: false }),
        RootKind::Symlink => Some(SizeEstimate { bytes: 0, files: 0, dirs: 0, truncated: true }),
        RootKind::File(len) => Some(SizeEstimate { bytes: len, files: 1, dirs: 0, truncated: false }),
        RootKind::Other => None,
    }
}

/// One entry that a walk reports.
#[derive(Debug, Clone, Copy, PartialEq, Eq, Structural)]
pub enum WalkEntry {
    /// The walker could not read it.
    Error,
    Symlink,
    /// A file, with its length when its metadata could be read.
    File(Option<u64>),
    Dir,
    /// An entry of no known type.
    Other,
}

/// Whether the walk goes on after an entry.
#[derive(Debug, Clone, Copy, PartialEq, Eq, Structural)]
pub enum WalkStep {
    Continue,
    Quit,
}

/// The running totals of a size walk.
#[derive(Debug, Clone, Copy, PartialEq, Eq, Structural)]
pub struct SizeWalk {
    pub bytes: u64,
    pub files: u64,
    pub dirs: u64,
    pub visited: u64,
    pub truncated: bool,
}

pub open spec fn wrapping_add_spec(a: u64, b: u64) -> u64 {
    if a + b > u64::MAX {
        (a + b - (u64::MAX + 1)) as u64
    } else {
        (a + b) as u64
    }
}

/// One step of a size walk: stop once cut short; count the entry as visited;
/// cut short (and stop) when the limits were already reached; else add a
/// readable file's length, or count a directory.
pub open spec fn walk_step_spec(
    old: SizeWalk,
    limits: ScanLimits,
    elapsed_ms: u64,
    entry: WalkEntry,
) -> (SizeWalk, WalkStep) {
    if old.truncated {
        (old, WalkStep::Quit)
    } else {
        let seen = old.visited;
        let counted = SizeWalk { visited: wrapping_add_spec(old.visited, 1), ..old };
        if seen >= limits.max_entries || elapsed_ms >= limits.max_duration_ms {
            (SizeWalk { truncated: true, ..counted }, WalkStep::Quit)
        } else {
            match entry {
                WalkEntry::File(Some(len)) => (
                    SizeWalk {
                        files: wrapping_add_spec(counted.files, 1),
                        bytes: wrapping_add_spec(counted.bytes, len),
                        ..counted
                    },
                    WalkStep::Continue,
                ),
                WalkEntry::Dir => (
                    SizeWalk { dirs: wrapping_add_spec(counted.dirs, 1), ..counted },
                    WalkStep::Continue,
                ),
                _ => (counted, WalkStep::Continue),
            }
        }
    }
}

impl SizeWalk {
    /// A walk that has seen nothing yet.
    pub fn new() -> (r: SizeWalk)
        ensures
            r == (SizeWalk { bytes: 0, files: 0, dirs: 0, visited: 0, truncated: false }),
    {
        SizeWalk { bytes: 0, files: 0, dirs: 0, visited: 0, truncated: false }
    }

    /// Takes in one entry, `elapsed_ms` after the walk began.
    pub fn step(&mut self, limits: ScanLimits, elapsed_ms: u64, entry: WalkEntry) -> (r: WalkStep)
        ensures
            (*final(self), r) == walk_step_spec(*old(self), limits, elapsed_ms, entry),
    {
        if self.truncated {
            return WalkStep::Quit;
        }
        let seen = self.visited;
        self.visited = self.visited.wrapping_add(1);
        if seen >= limits.max_entries || elapsed_ms >= limits.max_duration_ms {
            self.truncated = true;
            return WalkStep::Quit;
        }
        match entry {
            WalkEntry::File(Some(len)) => {
                self.files = self.files.wrapping_add(1);
                self.bytes = self.bytes.wrapping_add(len);
            },
            WalkEntry::Dir => {
                self.dirs = self.dirs.wrapping_add(1);
            },
            _ => {},
        }
        WalkStep::Continue
    }

    /// The estimate that the totals give.
    pub fn estimate(&self) -> (r: SizeEstimate)
        ensures
            r == (SizeEstimate {
                bytes: self.bytes,
                files: self.files,
                dirs: self.dirs,
                truncated: self.truncated,
            }),
    {
        SizeEstimate {
            bytes: self.bytes,
            files: self.files,
            dirs: self.dirs,
            truncated: self.truncated,
        }
    }
}

/// A cut-short walk stays cut short and unchanged: once `truncated`, every
/// later step quits and leaves the totals as they were.
pub proof fn law_truncated_walk_is_final(
    walk: SizeWalk,
    limits: ScanLimits,
    elapsed_ms: u64,
    entry: WalkEntry,
)
    requires
        walk.truncated,
    ensures
        walk_step_spec(walk, limits, elapsed_ms, entry) == (walk, WalkStep::Quit),
{
}

/// A step that goes on never cuts the walk short, and counts exactly one
/// more visited entry (below the wrap-around).
pub proof fn law_walk_counts_each_entry(
    walk: SizeWalk,
    limits: ScanLimits,
    elapsed_ms: u64,
    entry: WalkEntry,
)
    requires
        !walk.truncated,
        walk.visited < u64::MAX,
    ensures
        walk_step_spec(walk, limits, elapsed_ms, entry).0.visited == walk.visited + 1,
        walk_step_spec(walk, limits, elapsed_ms, entry).1 == WalkStep::Quit <==> (walk.visited
            >= limits.max_entries || elapsed_ms >= limits.max_duration_ms),
        walk_step_spec(walk, limits, elapsed_ms, entry).0.truncated <==> (walk.visited
            >= limits.max_entries || elapsed_ms >= limits.max_duration_ms),
{
}

/// The estimate of one path without walking it: a regular file's length
/// (`file_len` is given when the path itself is a regular file), else a
/// directory counted once and marked cut short.
pub fn file_estimate(file_len: Option<u64>, is_dir: bool) -> (r: SizeEstimate)
    ensures
        file_len matches Some(len) ==> r == (SizeEstimate {
            bytes: len,
            files: 1,
            dirs: 0,
            truncated: false,
        }),
        file_len is None ==> r == (SizeEstimate {
            bytes: 0,
            files: 0,
            dirs: if is_dir {
                1
            } else {
                0
            },
            truncated: is_dir,
        }),
{
    match file_len {
        Some(len) => SizeEstimate { bytes: len, files: 1, dirs: 0, truncated: false },
        None => SizeEstimate {
            bytes: 0,
            files: 0,
            dirs: if is_dir {
                1
            } else {
                0
            },
            truncated: is_dir,
        },
    }
}


// ---------------------------------------------------------------------------
// Entries
// ---------------------------------------------------------------------------

/// A scanned location as the user sees it.
#[derive(Debug, Clone, PartialEq, Eq)]
pub struct EnvEntry {
    pub id: String,
    pub name_key: String,
    pub path: String,
    pub category: Category,
    pub risk: Risk,
    pub size_bytes: u64,
    pub exists: bool,
    pub description_key: String,
    pub modified: Option<String>,
    pub file_count: u64,
    pub dir_count: u64,
    pub size_approximate: bool,
}

/// Cleanable entries, caches, temporary files and package managers get a
/// quick size walk during the first scan.
pub open spec fn estimate_on_startup_spec(risk: Risk, category: Category) -> bool {
    risk == Risk::Cleanable || category == Category::Cache || category == Category::Temp
        || category == Category::PackageManager
}

/// Whether an entry gets a quick size walk during the first scan.
pub fn should_estimate_on_startup(spec: &EnvSpec) -> (r: bool)
    ensures
        r == estimate_on_startup_spec(spec.risk, spec.category),
{
    spec.risk == Risk::Cleanable || spec.category == Category::Cache || spec.category
        == Category::Temp || spec.category == Category::PackageManager
}

/// The entry of a scanned spec: its estimate and modification time when the
/// path exists, else nothing counted.
pub fn scan_spec_fast(
    spec: EnvSpec,
    exists: bool,
    estimate: SizeEstimate,
    modified: Option<String>,
) -> (r: EnvEntry)
    ensures
        r.id == spec.id,
        r.name_key == spec.name_key,
        r.path == spec.path,
        r.category == spec.category,
        r.risk == spec.risk,
        r.description_key == spec.description_key,
        r.exists == exists,
        exists ==> r.size_bytes == estimate.bytes && r.file_count == estimate.files
            && r.dir_count == estimate.dirs && r.size_approximate == estimate.truncated
            && r.modified == modified,
        !exists ==> r.size_bytes == 0 && r.file_count == 0 && r.dir_count == 0
            && !r.size_approximate && r.modified is None,
{
    let (est, modified) = if exists {
        (estimate, modified)
    } else {
        (SizeEstimate { bytes: 0, files: 0, dirs: 0, truncated: false }, None)
    };
    EnvEntry {
        id: spec.id,
        name_key: spec.name_key,
        path: spec.path,
        category: spec.category,
        risk: spec.risk,
        size_bytes: est.bytes,
        exists,
        description_key: spec.description_key,
        modified,
        file_count: est.files,
        dir_count: est.dirs,
        size_approximate: est.truncated,
    }
}

/// ASCII letters and digits stay, every other character becomes `_`.
pub open spec fn sanitize_id_spec(s: Seq<char>) -> Seq<char> {
    s.map_values(|c: char| if is_alnum(c) { c } else { '_' })
}

/// A text made safe for an id.
pub fn sanitize_id(value: &str) -> (r: String)
    ensures
        r@ == sanitize_id_spec(value@),
{
    let n = value.unicode_len();
    let mut out = String::new();
    let mut i: usize = 0;
    while i < n
        invariant
            n == value@.len(),
            i <= n,
            out@ == sanitize_id_spec(value@.take(i as int)),
        decreases n - i,
    {
        let c = value.get_char(i);
        let ghost before = out@;
        push_char(&mut out, if is_ascii_alnum_char(c) { c } else { '_' });
        assert(value@.take(i + 1) == value@.take(i as int).push(c));
        assert(out@ =~= sanitize_id_spec(value@.take(i + 1)));
        i += 1;
    }
    assert(value@.take(n as int) == value@);
    out
}

/// ASCII letters, digits, `-`, `_` and `:` stay, every other character
/// becomes `_`.
pub open spec fn sanitize_label_spec(s: Seq<char>) -> Seq<char> {
    s.map_values(
        |c: char|
            if is_alnum(c) || c == '-' || c == '_' || c == ':' {
                c
            } else {
                '_'
            },
    )
}

/// A text made safe for a window label.
pub fn sanitize_window_label(value: &str) -> (r: String)
    ensures
        r@ == sanitize_label_spec(value@),
{
    let n = value.unicode_len();
    let mut out = String::new();
    let mut i: usize = 0;
    while i < n
        invariant
            n == value@.len(),
            i <= n,
            out@ == sanitize_label_spec(value@.take(i as int)),
        decreases n - i,
    {
        let c = value.get_char(i);
        let keep_it = is_ascii_alnum_char(c) || c == '-' || c == '_' || c == ':';
        push_char(&mut out, if keep_it { c } else { '_' });
        assert(value@.take(i + 1) == value@.take(i as int).push(c));
        assert(out@ =~= sanitize_label_spec(value@.take(i + 1)));
        i += 1;
    }
    assert(value@.take(n as int) == value@);
    out
}

/// The length in bytes of a text's UTF-8 encoding, as std's `len` gives it.
pub open spec fn byte_len(s: Seq<char>) -> int {
    (vstd::utf8::encode_utf8(s).len() as usize) as int
}

/// What one entry is reckoned to take in memory: 128 bytes plus its texts.
pub open spec fn entry_memory(e: EnvEntry) -> int {
    128 + byte_len(e.id@) + byte_len(e.name_key@) + byte_len(e.path@) + byte_len(
        e.description_key@,
    ) + match e.modified {
        Some(m) => byte_len(m@),
        None => 0,
    }
}

pub open spec fn total_memory(entries: Seq<EnvEntry>) -> int
    decreases entries.len(),
{
    if entries.len() == 0 {
        0
    } else {
        total_memory(entries.drop_last()) + entry_memory(entries.last())
    }
}

proof fn lemma_total_memory_prefix(entries: Seq<EnvEntry>, i: int)
    requires
        0 <= i <= entries.len(),
    ensures
        0 <= total_memory(entries.take(i)) <= total_memory(entries),
    decreases entries.len(),
{
    if entries.len() > 0 {
        if i == entries.len() {
            assert(entries.take(i) == entries);
            lemma_total_memory_prefix(entries.drop_last(), i - 1);
            assert(entries.drop_last().take(i - 1) == entries.drop_last());
        } else {
            lemma_total_memory_prefix(entries.drop_last(), i);
            assert(entries.drop_last().take(i) == entries.take(i));
            lemma_total_memory_prefix(entries.drop_last(), entries.len() - 1);
            assert(entries.drop_last().take(entries.len() - 1) == entries.drop_last());
        }
    }
}

fn text_bytes(s: &String) -> (r: u64)
    ensures
        r == byte_len(s@),
{
    s.as_str().len() as u64
}

/// The memory the entries of a report are reckoned to take.
pub fn estimate_report_memory(entries: &Vec<EnvEntry>) -> (r: u64)
    requires
        total_memory(entries@) <= u64::MAX,
    ensures
        r == total_memory(entries@),
{
    let mut total: u64 = 0;
    let mut i: usize = 0;
    while i < entries.len()
        invariant
            i <= entries.len(),
            total_memory(entries@) <= u64::MAX,
            total == total_memory(entries@.take(i as int)),
        decreases entries.len() - i,
    {
        let e = &entries[i];
        assert(entries@.take(i + 1).drop_last() == entries@.take(i as int));
        assert(entries@.take(i + 1).last() == *e);
        proof {
            lemma_total_memory_prefix(entries@, i + 1);
        }
        let modified = match &e.modified {
            Some(m) => text_bytes(m),
            None => 0,
        };
        total = total + 128 + text_bytes(&e.id) + text_bytes(&e.name_key) + text_bytes(&e.path)
            + text_bytes(&e.description_key) + modified;
        i += 1;
    }
    assert(entries@.take(entries.len() as int) == entries@);
    total
}

// ---------------------------------------------------------------------------
// PATH entries
// ---------------------------------------------------------------------------

/// One directory of the `PATH` variable.
#[derive(Debug, Clone, PartialEq, Eq)]
pub struct PathEntry {
    pub path: String,
    pub exists: bool,
    pub source: String,
}

pub open spec fn path_list_sep(os: Seq<char>) -> char {
    if is_windows(os) {
        ';'
    } else {
        ':'
    }
}

/// The trimmed, non-empty pieces of a `PATH` value.
pub open spec fn path_entry_texts_spec(value: Seq<char>, os: Seq<char>) -> Seq<Seq<char>> {
    keep(
        split_by(value, is_char(path_list_sep(os))).map_values(|p: Seq<char>| trim_seq(p)),
        nonempty_pred(),
    )
}

/// The non-empty directories of a `PATH` value.
pub fn path_entry_texts(value: &str, os: &str) -> (r: Vec<String>)
    ensures
        views(r@) == path_entry_texts_spec(value@, os@),
{
    let sep = if os_is_windows(os) {
        ';'
    } else {
        ':'
    };
    let pieces = split_char(value, sep);
    let ghost all = views(pieces@).map_values(|p: Seq<char>| trim_seq(p));
    let mut out: Vec<String> = Vec::new();
    let mut i: usize = 0;
    while i < pieces.len()
        invariant
            i <= pieces.len(),
            all == views(pieces@).map_values(|p: Seq<char>| trim_seq(p)),
            views(out@) == keep(all.take(i as int), nonempty_pred()),
        decreases pieces.len() - i,
    {
        assert(all.take(i + 1).drop_last() == all.take(i as int));
        assert(all.take(i + 1).last() == trim_seq(pieces@[i as int]@));
        let t = trim(pieces[i].as_str());
        if t.as_str().unicode_len() > 0 {
            let ghost before = out@;
            out.push(t);
            assert(views(out@) =~= views(before).push(t@));
        }
        i += 1;
    }
    assert(all.take(pieces.len() as int) == all);
    out
}

/// The entries of a `PATH` value; `exists[i]` tells whether the i-th
/// non-empty directory exists (one without a flag counts as missing).
pub fn path_entries(value: &str, os: &str, exists: &Vec<bool>) -> (r: Vec<PathEntry>)
    ensures
        r@.len() == path_entry_texts_spec(value@, os@).len(),
        forall|i: int|
            0 <= i < r@.len() ==> {
                &&& (#[trigger] r@[i]).path@ == path_entry_texts_spec(value@, os@)[i]
                &&& r@[i].exists == (i < exists@.len() && exists@[i])
                &&& r@[i].source@ == "PATH"@
            },
{
    let texts = path_entry_texts(value, os);
    let mut out: Vec<PathEntry> = Vec::new();
    let mut i: usize = 0;
    while i < texts.len()
        invariant
            i <= texts.len(),
            out@.len() == i,
            views(texts@) == path_entry_texts_spec(value@, os@),
            forall|k: int|
                0 <= k < i ==> {
                    &&& (#[trigger] out@[k]).path@ == texts@[k]@
                    &&& out@[k].exists == (k < exists@.len() && exists@[k])
                    &&& out@[k].source@ == "PATH"@
                },
        decreases texts.len() - i,
    {
        let present = i < exists.len() && exists[i];
        out.push(PathEntry { path: texts[i].clone(), exists: present, source: owned("PATH") });
        i += 1;
    }
    out
}

// ---------------------------------------------------------------------------
// Reports
// ---------------------------------------------------------------------------

/// The result of a scan.
#[derive(Debug, Clone, PartialEq, Eq)]
pub struct ScanReport {
    pub home_dir: String,
    pub platform: String,
    pub total_size_bytes: u64,
    pub entries: Vec<EnvEntry>,
    pub path_entries: Vec<PathEntry>,
    pub scan_mode: String,
    pub elapsed_ms: u128,
    pub estimated_memory_bytes: u64,
}

pub open spec fn total_size(entries: Seq<EnvEntry>) -> int
    decreases entries.len(),
{
    if entries.len() == 0 {
        0
    } else {
        total_size(entries.drop_last()) + entries.last().size_bytes
    }
}

proof fn lemma_total_size_prefix(entries: Seq<EnvEntry>, i: int)
    requires
        0 <= i <= entries.len(),
    ensures
        0 <= total_size(entries.take(i)) <= total_size(entries),
    decreases entries.len(),
{
    if entries.len() > 0 {
        if i == entries.len() {
            assert(entries.take(i) == entries);
            lemma_total_size_prefix(entries.drop_last(), i - 1);
            assert(entries.drop_last().take(i - 1) == entries.drop_last());
        } else {
            lemma_total_size_prefix(entries.drop_last(), i);
            assert(entries.drop_last().take(i) == entries.take(i));
            lemma_total_size_prefix(entries.drop_last(), entries.len() - 1);
            assert(entries.drop_last().take(entries.len() - 1) == entries.drop_last());
        }
    }
}

/// The sum of the entries' sizes.
pub fn total_size_bytes(entries: &Vec<EnvEntry>) -> (r: u64)
    requires
        total_size(entries@) <= u64::MAX,
    ensures
        r == total_size(entries@),
{
    let mut total: u64 = 0;
    let mut i: usize = 0;
    while i < entries.len()
        invariant
            i <= entries.len(),
            total_size(entries@) <= u64::MAX,
            total == total_size(entries@.take(i as int)),
        decreases entries.len() - i,
    {
        assert(entries@.take(i + 1).drop_last() == entries@.take(i as int));
        assert(entries@.take(i + 1).last() == entries@[i as int]);
        proof {
            lemma_total_size_prefix(entries@, i + 1);
        }
        total = total + entries[i].size_bytes;
        i += 1;
    }
    assert(entries@.take(entries.len() as int) == entries@);
    total
}

/// The name a report gives a scan mode.
pub open spec fn scan_mode_name_spec(mode: ScanMode) -> Seq<char> {
    match mode {
        ScanMode::Developer => "developer"@,
        ScanMode::Drive => "drive"@,
        ScanMode::Full => "full"@,
    }
}

/// The name a report gives a scan mode.
pub fn scan_mode_name(mode: ScanMode) -> (r: String)
    ensures
        r@ == scan_mode_name_spec(mode),
{
    match mode {
        ScanMode::Developer => owned("developer"),
        ScanMode::Drive => owned("drive"),
        ScanMode::Full => owned("full"),
    }
}

/// The report of a finished scan: the entries with their total size and
/// reckoned memory, and the `PATH` entries.
pub fn build_scan_report(
    home_dir: String,
    platform: String,
    entries: Vec<EnvEntry>,
    path_entries: Vec<PathEntry>,
    mode: ScanMode,
    elapsed_ms: u128,
) -> (r: ScanReport)
    requires
        total_size(entries@) <= u64::MAX,
        total_memory(entries@) <= u64::MAX,
    ensures
        r.home_dir == home_dir,
        r.platform == platform,
        r.total_size_bytes == total_size(entries@),
        r.entries == entries,
        r.path_entries == path_entries,
        r.scan_mode@ == scan_mode_name_spec(mode),
        r.elapsed_ms == elapsed_ms,
        r.estimated_memory_bytes == total_memory(entries@),
{
    let total_size_bytes = total_size_bytes(&entries);
    let estimated_memory_bytes = estimate_report_memory(&entries);
    ScanReport {
        home_dir,
        platform,
        total_size_bytes,
        entries,
        path_entries,
        scan_mode: scan_mode_name(mode),
        elapsed_ms,
        estimated_memory_bytes,
    }
}


// ---------------------------------------------------------------------------
// Insights
// ---------------------------------------------------------------------------

/// Counts shown beside a scan report.
#[derive(Debug, Clone, Copy, PartialEq, Eq, Structural)]
pub struct ToolInsights {
    pub cleanable_count: usize,
    pub toolchain_count: usize,
    pub ai_tool_count: usize,
    pub broken_path_count: usize,
    pub config_rule_count: usize,
    pub dependency_edge_count: usize,
}

pub open spec fn cleanable_pred() -> spec_fn(EnvEntry) -> bool {
    |e: EnvEntry| e.exists && e.risk == Risk::Cleanable
}

pub open spec fn category_pred(c: Category) -> spec_fn(EnvEntry) -> bool {
    |e: EnvEntry| e.exists && e.category == c
}

pub open spec fn broken_pred() -> spec_fn(PathEntry) -> bool {
    |e: PathEntry| !e.exists
}

pub open spec fn dependency_edges(rules: Seq<RuleSpec>) -> int
    decreases rules.len(),
{
    if rules.len() == 0 {
        0
    } else {
        dependency_edges(rules.drop_last()) + rules.last().depends_on@.len()
    }
}

proof fn lemma_dependency_edges_prefix(rules: Seq<RuleSpec>, i: int)
    requires
        0 <= i <= rules.len(),
    ensures
        0 <= dependency_edges(rules.take(i)) <= dependency_edges(rules),
    decreases rules.len(),
{
    if rules.len() > 0 {
        if i == rules.len() {
            assert(rules.take(i) == rules);
            lemma_dependency_edges_prefix(rules.drop_last(), i - 1);
            assert(rules.drop_last().take(i - 1) == rules.drop_last());
        } else {
            lemma_dependency_edges_prefix(rules.drop_last(), i);
            assert(rules.drop_last().take(i) == rules.take(i));
            lemma_dependency_edges_prefix(rules.drop_last(), rules.len() - 1);
            assert(rules.drop_last().take(rules.len() - 1) == rules.drop_last());
        }
    }
}

fn count_entries(entries: &Vec<EnvEntry>, which: u8) -> (r: usize)
    requires
        which <= 2,
    ensures
        which == 0 ==> r == count_where(entries@, cleanable_pred()),
        which == 1 ==> r == count_where(entries@, category_pred(Category::Toolchain)),
        which == 2 ==> r == count_where(entries@, category_pred(Category::AiTool)),
{
    let ghost p = if which == 0 {
        cleanable_pred()
    } else if which == 1 {
        category_pred(Category::Toolchain)
    } else {
        category_pred(Category::AiTool)
    };
    let mut n: usize = 0;
    let mut i: usize = 0;
    while i < entries.len()
        invariant
            i <= entries.len(),
            which <= 2,
            p == (if which == 0 {
                cleanable_pred()
            } else if which == 1 {
                category_pred(Category::Toolchain)
            } else {
                category_pred(Category::AiTool)
            }),
            n == count_where(entries@.take(i as int), p),
            n <= i,
        decreases entries.len() - i,
    {
        assert(entries@.take(i + 1).drop_last() == entries@.take(i as int));
        assert(entries@.take(i + 1).last() == entries@[i as int]);
        let e = &entries[i];
        let hit = if which == 0 {
            e.exists && e.risk == Risk::Cleanable
        } else if which == 1 {
            e.exists && e.category == Category::Toolchain
        } else {
            e.exists && e.category == Category::AiTool
        };
        if hit {
            n += 1;
        }
        i += 1;
    }
    assert(entries@.take(entries.len() as int) == entries@);
    n
}

/// How many entries exist and are cleanable, toolchains or AI tools, how
/// many `PATH` directories are missing, and how many rules and rule
/// dependencies there are.
pub fn tool_insights(report: &ScanReport, rules: &RuleFile) -> (r: ToolInsights)
    requires
        dependency_edges(rules.rules@) <= usize::MAX,
    ensures
        r.cleanable_count == count_where(report.entries@, cleanable_pred()),
        r.toolchain_count == count_where(report.entries@, category_pred(Category::Toolchain)),
        r.ai_tool_count == count_where(report.entries@, category_pred(Category::AiTool)),
        r.broken_path_count == count_where(report.path_entries@, broken_pred()),
        r.config_rule_count == rules.rules@.len(),
        r.dependency_edge_count == dependency_edges(rules.rules@),
{
    let mut broken: usize = 0;
    let mut i: usize = 0;
    while i < report.path_entries.len()
        invariant
            i <= report.path_entries.len(),
            broken == count_where(report.path_entries@.take(i as int), broken_pred()),
            broken <= i,
        decreases report.path_entries.len() - i,
    {
        assert(report.path_entries@.take(i + 1).drop_last() == report.path_entries@.take(i as int));
        assert(report.path_entries@.take(i + 1).last() == report.path_entries@[i as int]);
        if !report.path_entries[i].exists {
            broken += 1;
        }
        i += 1;
    }
    assert(report.path_entries@.take(report.path_entries.len() as int) == report.path_entries@);
    let mut edges: usize = 0;
    let mut k: usize = 0;
    while k < rules.rules.len()
        invariant
            k <= rules.rules.len(),
            dependency_edges(rules.rules@) <= usize::MAX,
            edges == dependency_edges(rules.rules@.take(k as int)),
        decreases rules.rules.len() - k,
    {
        assert(rules.rules@.take(k + 1).drop_last() == rules.rules@.take(k as int));
        assert(rules.rules@.take(k + 1).last() == rules.rules@[k as int]);
        proof {
            lemma_dependency_edges_prefix(rules.rules@, k + 1);
        }
        edges = edges + rules.rules[k].depends_on.len();
        k += 1;
    }
    assert(rules.rules@.take(rules.rules.len() as int) == rules.rules@);
    ToolInsights {
        cleanable_count: count_entries(&report.entries, 0),
        toolchain_count: count_entries(&report.entries, 1),
        ai_tool_count: count_entries(&report.entries, 2),
        broken_path_count: broken,
        config_rule_count: rules.rules.len(),
        dependency_edge_count: edges,
    }
}

// ---------------------------------------------------------------------------
// Cleanup
// ---------------------------------------------------------------------------

/// What removing an entry would do.
#[derive(Debug, Clone, PartialEq, Eq)]
pub struct CleanupPreview {
    pub path: String,
    pub allowed: bool,
    pub risk: Risk,
    pub estimate: SizeEstimate,
    pub reason: String,
}

/// A cleanup is allowed for an existing cleanable entry; the estimate (taken
/// with the child limits) counts only when the path exists.
pub fn preview_cleanup(path: String, risk: Risk, exists: bool, estimate: SizeEstimate) -> (r:
    CleanupPreview)
    ensures
        r.path == path,
        r.risk == risk,
        r.allowed == (risk == Risk::Cleanable && exists),
        r.estimate == (if exists {
            estimate
        } else {
            zero_estimate()
        }),
        r.allowed ==> r.reason@ == "cleanable rule"@,
        !r.allowed ==> r.reason@ == "not cleanable or missing"@,
{
    let allowed = risk == Risk::Cleanable && exists;
    let estimate = if exists {
        estimate
    } else {
        SizeEstimate { bytes: 0, files: 0, dirs: 0, truncated: false }
    };
    let reason = if allowed {
        owned("cleanable rule")
    } else {
        owned("not cleanable or missing")
    };
    CleanupPreview { path, allowed, risk, estimate, reason }
}

/// The answer to a delete request.
#[derive(Debug, Clone, PartialEq, Eq)]
pub struct DeleteResult {
    pub deleted: bool,
    pub path: String,
}

/// Whether an entry may be deleted: only a cleanable one; a missing one
/// needs no work and is answered at once (`Some`); otherwise the caller
/// removes it (`None`).
pub fn delete_entry_plan(path: String, risk: Risk, exists: bool) -> (r: Result<
    Option<DeleteResult>,
    String,
>)
    ensures
        risk != Risk::Cleanable ==> (r matches Err(e) && e@
            == "Only cleanable entries can be deleted from this build"@),
        risk == Risk::Cleanable && !exists ==> (r matches Ok(Some(d)) && !d.deleted && d.path
            == path),
        risk == Risk::Cleanable && exists ==> r == Ok::<Option<DeleteResult>, String>(None),
{
    if risk != Risk::Cleanable {
        return Err(owned("Only cleanable entries can be deleted from this build"));
    }
    if !exists {
        return Ok(Some(DeleteResult { deleted: false, path }));
    }
    Ok(None)
}


// ---------------------------------------------------------------------------
// Deep scans
// ---------------------------------------------------------------------------

impl EnvEntry {
    /// A field-by-field copy.
    pub fn duplicate(&self) -> (r: EnvEntry)
        ensures
            r == *self,
    {
        EnvEntry {
            id: self.id.clone(),
            name_key: self.name_key.clone(),
            path: self.path.clone(),
            category: self.category,
            risk: self.risk,
            size_bytes: self.size_bytes,
            exists: self.exists,
            description_key: self.description_key.clone(),
            modified: crate::catalog::clone_opt(&self.modified),
            file_count: self.file_count,
            dir_count: self.dir_count,
            size_approximate: self.size_approximate,
        }
    }
}

/// The result of a deep scan: the path's estimate and its largest children.
#[derive(Debug, Clone, PartialEq, Eq)]
pub struct DeepScanReport {
    pub estimate: SizeEstimate,
    pub children: Vec<EnvEntry>,
}

/// The entry of the `index`-th child of a deep scan.
pub fn deep_child_entry(
    index: u64,
    name: &str,
    path: String,
    exists: bool,
    estimate: SizeEstimate,
    modified: Option<String>,
) -> (r: EnvEntry)
    ensures
        r.id@ == "deep_child_"@ + decimal(index as nat) + seq!['_'] + sanitize_id_spec(name@),
        r.name_key@ == "literal:"@ + name@,
        r.path == path,
        r.category == Category::Cache,
        r.risk == Risk::Caution,
        r.size_bytes == estimate.bytes,
        r.exists == exists,
        r.description_key@ == "desc.deepChild"@,
        r.modified == modified,
        r.file_count == estimate.files,
        r.dir_count == estimate.dirs,
        r.size_approximate == estimate.truncated,
{
    let mut id = owned("deep_child_");
    id.append(u64_to_string(index).as_str());
    push_char(&mut id, '_');
    id.append(sanitize_id(name).as_str());
    EnvEntry {
        id,
        name_key: concat2("literal:", name),
        path,
        category: Category::Cache,
        risk: Risk::Caution,
        size_bytes: estimate.bytes,
        exists,
        description_key: owned("desc.deepChild"),
        modified,
        file_count: estimate.files,
        dir_count: estimate.dirs,
        size_approximate: estimate.truncated,
    }
}

/// `order` lists each index of `items` once, largest size first, and items
/// of equal size in their original order.
pub open spec fn stable_size_order(order: Seq<usize>, items: Seq<EnvEntry>) -> bool {
    &&& order.len() == items.len()
    &&& forall|k: int| 0 <= k < order.len() ==> #[trigger] order[k] < items.len()
    &&& forall|k: int, l: int| 0 <= k < l < order.len() ==> #[trigger] order[k] != #[trigger] order[l]
    &&& forall|k: int, l: int|
        0 <= k < l < order.len() ==> items[#[trigger] order[k] as int].size_bytes >= items[
            #[trigger] order[l] as int].size_bytes
    &&& forall|k: int, l: int|
        0 <= k < l < order.len() && items[#[trigger] order[k] as int].size_bytes == items[
            #[trigger] order[l] as int].size_bytes ==> order[k] < order[l]
}

/// Children largest first; equal sizes keep their order (a stable sort by
/// size, descending).
pub fn sort_by_size_desc(items: &Vec<EnvEntry>) -> (r: Vec<EnvEntry>)
    ensures
        exists|order: Seq<usize>|
            stable_size_order(order, items@) && r@ == order.map_values(
                |j: usize| items@[j as int],
            ),
{
    let ghost it = items@;
    let mut order: Vec<usize> = Vec::new();
    let mut i: usize = 0;
    while i < items.len()
        invariant
            i <= items.len(),
            it == items@,
            order@.len() == i,
            forall|k: int| 0 <= k < order@.len() ==> #[trigger] order@[k] < i,
            forall|k: int, l: int|
                0 <= k < l < order@.len() ==> #[trigger] order@[k] != #[trigger] order@[l],
            forall|k: int, l: int|
                0 <= k < l < order@.len() ==> it[#[trigger] order@[k] as int].size_bytes >= it[
                    #[trigger] order@[l] as int].size_bytes,
            forall|k: int, l: int|
                0 <= k < l < order@.len() && it[#[trigger] order@[k] as int].size_bytes == it[
                    #[trigger] order@[l] as int].size_bytes ==> order@[k] < order@[l],
        decreases items.len() - i,
    {
        let size = items[i].size_bytes;
        let mut p: usize = 0;
        while p < order.len() && items[order[p]].size_bytes >= size
            invariant
                p <= order@.len(),
                it == items@,
                forall|k: int| 0 <= k < order@.len() ==> #[trigger] order@[k] < i,
                i < items@.len(),
                size == it[i as int].size_bytes,
                forall|k: int| 0 <= k < p ==> it[#[trigger] order@[k] as int].size_bytes >= size,
            decreases order@.len() - p,
        {
            p += 1;
        }
        let ghost before = order@;
        proof {
            if p < before.len() {
                assert(it[before[p as int] as int].size_bytes < size);
                assert forall|k: int| p <= k < before.len() implies it[#[trigger] before[k] as int].size_bytes
                    < size by {
                    if k > p {
                        assert(it[before[p as int] as int].size_bytes >= it[before[k] as int].size_bytes);
                    }
                }
            }
        }
        order.insert(p, i);
        assert(order@ == before.insert(p as int, i));
        assert forall|k: int, l: int| 0 <= k < l < order@.len() implies it[#[trigger] order@[k] as int].size_bytes
            >= it[#[trigger] order@[l] as int].size_bytes by {
            if k < p && l == p {
                assert(order@[k] == before[k]);
            } else if k == p && l > p {
                assert(order@[l] == before[l - 1]);
            } else if k < p && l > p {
                assert(order@[k] == before[k]);
                assert(order@[l] == before[l - 1]);
            } else if k > p {
                assert(order@[k] == before[k - 1]);
                assert(order@[l] == before[l - 1]);
            } else {
                assert(order@[k] == before[k]);
                assert(order@[l] == before[l]);
            }
        }
        assert forall|k: int, l: int|
            0 <= k < l < order@.len() && it[#[trigger] order@[k] as int].size_bytes == it[
                #[trigger] order@[l] as int].size_bytes implies order@[k] < order@[l] by {
            if k < p && l == p {
                assert(order@[k] == before[k]);
            } else if k == p && l > p {
                assert(order@[l] == before[l - 1]);
            } else if k < p && l > p {
                assert(order@[k] == before[k]);
                assert(order@[l] == before[l - 1]);
            } else if k > p {
                assert(order@[k] == before[k - 1]);
                assert(order@[l] == before[l - 1]);
            } else {
                assert(order@[k] == before[k]);
                assert(order@[l] == before[l]);
            }
        }
        assert forall|k: int, l: int| 0 <= k < l < order@.len() implies #[trigger] order@[k]
            != #[trigger] order@[l] by {
            if k < p && l == p {
                assert(order@[k] == before[k]);
            } else if k == p && l > p {
                assert(order@[l] == before[l - 1]);
            } else if k < p && l > p {
                assert(order@[k] == before[k]);
                assert(order@[l] == before[l - 1]);
            } else if k > p {
                assert(order@[k] == before[k - 1]);
                assert(order@[l] == before[l - 1]);
            } else {
                assert(order@[k] == before[k]);
                assert(order@[l] == before[l]);
            }
        }
        i += 1;
    }
    let mut out: Vec<EnvEntry> = Vec::new();
    let mut k: usize = 0;
    while k < order.len()
        invariant
            k <= order@.len(),
            it == items@,
            order@.len() == it.len(),
            forall|m: int| 0 <= m < order@.len() ==> #[trigger] order@[m] < it.len(),
            out@ == order@.take(k as int).map_values(|j: usize| it[j as int]),
        decreases order@.len() - k,
    {
        out.push(items[order[k]].duplicate());
        assert(order@.take(k + 1).map_values(|j: usize| it[j as int]) =~= order@.take(
            k as int,
        ).map_values(|j: usize| it[j as int]).push(it[order@[k as int] as int]));
        k += 1;
    }
    assert(order@.take(order@.len() as int) == order@);
    assert(stable_size_order(order@, items@));
    out
}


// ---------------------------------------------------------------------------
// Bounds
// ---------------------------------------------------------------------------

/// Whether every running total of every rule's score fits in an `i32`.
pub fn rules_are_within_bounds(file: &RuleFile) -> (r: bool)
    ensures
        r == rules_fit(*file),
{
    let mut i: usize = 0;
    while i < file.rules.len()
        invariant
            i <= file.rules@.len(),
            forall|j: int| 0 <= j < i ==> score_fits(#[trigger] file.rules@[j], file.risk_model),
        decreases file.rules.len() - i,
    {
        if !rule_within_bounds(&file.rules[i], &file.risk_model) {
            assert(!score_fits(file.rules@[i as int], file.risk_model));
            return false;
        }
        i += 1;
    }
    true
}

fn rule_within_bounds(rule: &RuleSpec, model: &RiskModel) -> (r: bool)
    ensures
        r == score_fits(*rule, *model),
{
    let names = &rule.risk_factors;
    let mut score: i64 = 50;
    let mut i: usize = 0;
    assert(names@.take(0) == Seq::<String>::empty());
    while i < names.len()
        invariant
            i <= names.len(),
            names == &rule.risk_factors,
            score == score_after(*rule, *model, i as int),
            forall|k: int| 0 <= k <= i ==> i32::MIN <= #[trigger] score_after(*rule, *model, k) <= i32::MAX,
        decreases names.len() - i,
    {
        assert(names@.take(i + 1).drop_last() == names@.take(i as int));
        assert(names@.take(i + 1).last() == names@[i as int]);
        let found = lookup_factor(&model.factors, names[i].as_str());
        let ghost prev = found_weights(names@.take(i as int), model.factors@);
        match found {
            Some(v) => {
                assert(found_weights(names@.take(i + 1), model.factors@) == prev.push(v));
                assert(prev.push(v).drop_last() == prev);
                score = score + v as i64;
            },
            None => {
                assert(found_weights(names@.take(i + 1), model.factors@) == prev);
            },
        }
        if score < -2147483648 || score > 2147483647 {
            assert(!(i32::MIN <= score_after(*rule, *model, i + 1) <= i32::MAX));
            return false;
        }
        i += 1;
    }
    true
}

/// Whether the entries' total size and reckoned memory both fit in a `u64`.
pub fn report_totals_fit(entries: &Vec<EnvEntry>) -> (r: bool)
    ensures
        r == (total_size(entries@) <= u64::MAX && total_memory(entries@) <= u64::MAX),
{
    let mut size: u128 = 0;
    let mut memory: u128 = 0;
    let mut i: usize = 0;
    while i < entries.len()
        invariant
            i <= entries.len(),
            size == total_size(entries@.take(i as int)),
            memory == total_memory(entries@.take(i as int)),
            size <= u64::MAX,
            memory <= u64::MAX,
        decreases entries.len() - i,
    {
        let e = &entries[i];
        assert(entries@.take(i + 1).drop_last() == entries@.take(i as int));
        assert(entries@.take(i + 1).last() == *e);
        let modified = match &e.modified {
            Some(m) => text_bytes(m),
            None => 0,
        };
        size = size + e.size_bytes as u128;
        memory = memory + 128 + text_bytes(&e.id) as u128 + text_bytes(&e.name_key) as u128
            + text_bytes(&e.path) as u128 + text_bytes(&e.description_key) as u128
            + modified as u128;
        if size > 18446744073709551615 || memory > 18446744073709551615 {
            proof {
                lemma_total_size_prefix(entries@, i + 1);
                lemma_total_memory_prefix(entries@, i + 1);
            }
            return false;
        }
        i += 1;
    }
    assert(entries@.take(entries.len() as int) == entries@);
    true
}

/// Whether the rules' dependencies can be counted in a `usize`.
pub fn dependency_edges_fit(file: &RuleFile) -> (r: bool)
    ensures
        r == (dependency_edges(file.rules@) <= usize::MAX),
{
    let mut edges: u128 = 0;
    let mut k: usize = 0;
    while k < file.rules.len()
        invariant
            k <= file.rules.len(),
            edges == dependency_edges(file.rules@.take(k as int)),
            edges <= usize::MAX,
        decreases file.rules.len() - k,
    {
        assert(file.rules@.take(k + 1).drop_last() == file.rules@.take(k as int));
        assert(file.rules@.take(k + 1).last() == file.rules@[k as int]);
        edges = edges + file.rules[k].depends_on.len() as u128;
        if edges > usize::MAX as u128 {
            proof {
                lemma_dependency_edges_prefix(file.rules@, k + 1);
            }
            return false;
        }
        k += 1;
    }
    assert(file.rules@.take(file.rules.len() as int) == file.rules@);
    true
}


// ---------------------------------------------------------------------------
// Whole walks and startup estimates
// ---------------------------------------------------------------------------

/// A walk that has seen nothing yet.
pub open spec fn fresh_walk() -> SizeWalk {
    SizeWalk { bytes: 0, files: 0, dirs: 0, visited: 0, truncated: false }
}

/// The walk after taking in the given entries, each with the milliseconds
/// elapsed when it came, starting from nothing.
pub open spec fn walk_after(limits: ScanLimits, steps: Seq<(u64, WalkEntry)>) -> SizeWalk
    decreases steps.len(),
{
    if steps.len() == 0 {
        fresh_walk()
    } else {
        walk_step_spec(
            walk_after(limits, steps.drop_last()),
            limits,
            steps.last().0,
            steps.last().1,
        ).0
    }
}

proof fn lemma_walk_step_bounded(w: SizeWalk, limits: ScanLimits, elapsed_ms: u64, entry: WalkEntry)
    requires
        w.files + w.dirs <= w.visited,
        w.files + w.dirs <= limits.max_entries,
        w.visited < u64::MAX,
    ensures
        ({
            let n = walk_step_spec(w, limits, elapsed_ms, entry).0;
            &&& n.files + n.dirs <= n.visited
            &&& n.files + n.dirs <= limits.max_entries
            &&& n.visited <= w.visited + 1
        }),
{
}

/// A walk never counts more files and directories than it visited entries,
/// nor more than its entry limit: however many entries come (below the
/// wrap-around of the visit count), `files + dirs` stays within
/// `limits.max_entries`.
pub proof fn law_walk_bounded(limits: ScanLimits, steps: Seq<(u64, WalkEntry)>)
    requires
        steps.len() <= u64::MAX,
    ensures
        walk_after(limits, steps).files + walk_after(limits, steps).dirs <= walk_after(
            limits,
            steps,
        ).visited,
        walk_after(limits, steps).files + walk_after(limits, steps).dirs <= limits.max_entries,
        walk_after(limits, steps).visited <= steps.len(),
    decreases steps.len(),
{
    if steps.len() > 0 {
        law_walk_bounded(limits, steps.drop_last());
        lemma_walk_step_bounded(
            walk_after(limits, steps.drop_last()),
            limits,
            steps.last().0,
            steps.last().1,
        );
    }
}

/// How the first scan estimates a spec's size.
#[derive(Debug, Clone, Copy, PartialEq, Eq, Structural)]
pub enum StartupEstimate {
    /// The path is missing: nothing is counted and no time is read.
    Missing,
    /// A size walk with these limits.
    Walk(ScanLimits),
    /// The path alone (`file_estimate`).
    PathOnly,
}

/// What the first scan does for a spec: nothing for a missing path, a quick
/// walk within the startup limits for cleanable entries, caches, temporary
/// files and package managers, else the path alone.
pub fn startup_estimate(spec: &EnvSpec, exists: bool) -> (r: StartupEstimate)
    ensures
        !exists ==> r == StartupEstimate::Missing,
        exists && estimate_on_startup_spec(spec.risk, spec.category) ==> r == StartupEstimate::Walk(
            ScanLimits { max_entries: 900, max_duration_ms: 18 },
        ),
        exists && !estimate_on_startup_spec(spec.risk, spec.category) ==> r
            == StartupEstimate::PathOnly,
{
    if !exists {
        StartupEstimate::Missing
    } else if should_estimate_on_startup(spec) {
        StartupEstimate::Walk(startup_size_limits())
    } else {
        StartupEstimate::PathOnly
    }
}

/// An estimate that a startup scan can produce: a whole walk within the
/// startup limits, a walk's start, or a path-only estimate.
pub proof fn law_startup_estimates_bounded(
    steps: Seq<(u64, WalkEntry)>,
    root: RootKind,
    file_len: Option<u64>,
    is_dir: bool,
)
    requires
        steps.len() <= u64::MAX,
    ensures
        ({
            let w = walk_after(ScanLimits { max_entries: 900, max_duration_ms: 18 }, steps);
            w.files + w.dirs <= 900
        }),
        ({
            let start = match root {
                RootKind::Unreadable => zero_estimate(),
                RootKind::Symlink => SizeEstimate { bytes: 0, files: 0, dirs: 0, truncated: true },
                RootKind::File(len) => SizeEstimate { bytes: len, files: 1, dirs: 0, truncated: false },
                RootKind::Other => zero_estimate(),
            };
            start.files + start.dirs <= 1
        }),
        ({
            let e = match file_len {
                Some(len) => SizeEstimate { bytes: len, files: 1, dirs: 0, truncated: false },
                None => SizeEstimate {
                    bytes: 0,
                    files: 0,
                    dirs: if is_dir {
                        1
                    } else {
                        0
                    },
                    truncated: is_dir,
                },
            };
            e.files + e.dirs <= 1
        }),
{
    law_walk_bounded(ScanLimits { max_entries: 900, max_duration_ms: 18 }, steps);
}

// ---------------------------------------------------------------------------
// Deep scan reports
// ---------------------------------------------------------------------------

/// One directory entry read during a deep scan, with what was found of it.
#[derive(Debug, Clone, PartialEq, Eq)]
pub struct DeepChild {
    pub name: String,
    pub exists: bool,
    pub estimate: SizeEstimate,
    pub modified: Option<String>,
}

/// How many children a deep scan shows at most.
pub fn deep_child_limit() -> (r: usize)
    ensures
        r == 80,
{
    80
}

/// The entry made of the `index`-th child of `dir`.
pub open spec fn deep_child_ok(e: EnvEntry, index: int, c: DeepChild, dir: Seq<char>, os: Seq<char>) -> bool {
    &&& e.id@ == "deep_child_"@ + decimal(index as nat) + seq!['_'] + sanitize_id_spec(c.name@)
    &&& e.name_key@ == "literal:"@ + c.name@
    &&& e.path@ == join_spec(dir, c.name@, os)
    &&& e.category == Category::Cache
    &&& e.risk == Risk::Caution
    &&& e.size_bytes == c.estimate.bytes
    &&& e.exists == c.exists
    &&& e.description_key@ == "desc.deepChild"@
    &&& e.modified == c.modified
    &&& e.file_count == c.estimate.files
    &&& e.dir_count == c.estimate.dirs
    &&& e.size_approximate == c.estimate.truncated
}

/// A deep scan: an error for a missing path; otherwise the path's estimate
/// and, for a directory, the entries of its first 80 children, largest
/// first (equal sizes in reading order); a file has no children.
pub fn deep_scan_entry(
    path: &str,
    exists: bool,
    is_dir: bool,
    estimate: SizeEstimate,
    children: Vec<DeepChild>,
    os: &str,
) -> (r: Result<DeepScanReport, String>)
    ensures
        !exists ==> (r matches Err(e) && e@ == "Path does not exist"@),
        exists ==> (r matches Ok(report) && {
            &&& report.estimate == estimate
            &&& report.children@.len() <= 80
            &&& !is_dir ==> report.children@.len() == 0
            &&& is_dir ==> exists|built: Seq<EnvEntry>, order: Seq<usize>|
                {
                    &&& built.len() == (if children@.len() <= 80 {
                        children@.len() as int
                    } else {
                        80
                    })
                    &&& forall|i: int| 0 <= i < built.len() ==> deep_child_ok(
                        #[trigger] built[i],
                        i,
                        children@[i],
                        path@,
                        os@,
                    )
                    &&& stable_size_order(order, built)
                    &&& report.children@ == order.map_values(|j: usize| built[j as int])
                }
        }),
{
    if !exists {
        return Err(owned("Path does not exist"));
    }
    if !is_dir {
        return Ok(DeepScanReport { estimate, children: Vec::new() });
    }
    let limit = deep_child_limit();
    let mut built: Vec<EnvEntry> = Vec::new();
    let mut i: usize = 0;
    while i < children.len() && i < limit
        invariant
            i <= children@.len(),
            limit == 80,
            i <= 80,
            built@.len() == i,
            forall|k: int| 0 <= k < i ==> deep_child_ok(#[trigger] built@[k], k, children@[k], path@, os@),
        decreases children.len() - i,
    {
        let c = &children[i];
        let child_path = join_path(path, c.name.as_str(), os);
        let e = deep_child_entry(
            i as u64,
            c.name.as_str(),
            child_path,
            c.exists,
            c.estimate,
            crate::catalog::clone_opt(&c.modified),
        );
        built.push(e);
        i += 1;
    }
    let sorted = sort_by_size_desc(&built);
    Ok(DeepScanReport { estimate, children: sorted })
}

} // verus!
