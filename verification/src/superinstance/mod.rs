//! Budget-constrained shader compilation: bytecode for the deterministic
//! path, agent rooms with sensors and alarms, budget enforcement, and the
//! command-line options that switch them on.
//!
//! Amounts are whole numbers of nano-dollars (10^-9 USD); ratios are percentages.
pub mod flux_integration;
pub mod conservation_integration;

use vstd::prelude::*;
use crate::decimal::{all_digits, all_digits_exec, digits_value, digits_value_exec};
use crate::text::{chars_of, eq_str, find, find_exec, lemma_find, occurs_at, string_of, sub_vec};

verus! {

/// Configuration of the integration layer.
#[derive(Clone, Debug)]
pub struct SuperInstanceConfig {
    /// Compile through bytecode.
    pub flux_enabled: bool,
    /// Where compiled bytecode is kept.
    pub flux_cache_dir: String,
    /// Coordinate through a room.
    pub plato_enabled: bool,
    /// The room's name.
    pub plato_room: String,
    /// The room server's port.
    pub plato_port: u16,
    /// Enforce the budget.
    pub conservation_enabled: bool,
    /// Daily budget in nano-dollars.
    pub daily_budget: u64,
    /// Crystallized share of the budget, in percent (0 to 100).
    pub crystallized_percent: u64,
}

/// A configuration as the contracts see it.
pub struct ConfigView {
    pub flux_enabled: bool,
    pub flux_cache_dir: Seq<char>,
    pub plato_enabled: bool,
    pub plato_room: Seq<char>,
    pub plato_port: u16,
    pub conservation_enabled: bool,
    pub daily_budget: u64,
    pub crystallized_percent: u64,
}

impl SuperInstanceConfig {
    pub open spec fn view(&self) -> ConfigView {
        ConfigView {
            flux_enabled: self.flux_enabled,
            flux_cache_dir: self.flux_cache_dir@,
            plato_enabled: self.plato_enabled,
            plato_room: self.plato_room@,
            plato_port: self.plato_port,
            conservation_enabled: self.conservation_enabled,
            daily_budget: self.daily_budget,
            crystallized_percent: self.crystallized_percent,
        }
    }
}

/// Everything off; cache in `.flux-cache`, room `shader_compiler` on port
/// 8847, 0.10 USD a day, 80% crystallized.
pub open spec fn default_config() -> ConfigView {
    ConfigView {
        flux_enabled: false,
        flux_cache_dir: ".flux-cache"@,
        plato_enabled: false,
        plato_room: "shader_compiler"@,
        plato_port: 8847,
        conservation_enabled: false,
        daily_budget: 100_000_000,
        crystallized_percent: 80,
    }
}

impl Default for SuperInstanceConfig {
    fn default() -> (c: Self)
        ensures
            c@ == default_config(),
    {
        SuperInstanceConfig {
            flux_enabled: false,
            flux_cache_dir: string_of(chars_of(".flux-cache").as_slice()),
            plato_enabled: false,
            plato_room: string_of(chars_of("shader_compiler").as_slice()),
            plato_port: 8847,
            conservation_enabled: false,
            daily_budget: 100_000_000,
            crystallized_percent: 80,
        }
    }
}

/// The result of a budget-constrained compilation.
#[derive(Clone, Debug)]
pub enum CompilationResult {
    /// Compiled through bytecode (crystallized path).
    Crystallized { bytecode: Vec<u8>, cost: u64, duration_ms: u64 },
    /// Compiled on the live path.
    Live { output: Vec<u8>, cost: u64, duration_ms: u64 },
    /// Refused: the budget left does not cover the cost.
    BudgetExceeded { available: i128, required: u64 },
}

impl CompilationResult {
    /// The cost charged: nothing for a refusal.
    pub fn cost(&self) -> (c: u64)
        ensures
            c == match *self {
                CompilationResult::Crystallized { cost, .. } => cost,
                CompilationResult::Live { cost, .. } => cost,
                CompilationResult::BudgetExceeded { .. } => 0,
            },
    {
        match self {
            CompilationResult::Crystallized { cost, .. } => *cost,
            CompilationResult::Live { cost, .. } => *cost,
            CompilationResult::BudgetExceeded { .. } => 0,
        }
    }

    pub fn is_allowed(&self) -> (b: bool)
        ensures
            b == !(*self is BudgetExceeded),
    {
        !matches!(self, CompilationResult::BudgetExceeded { .. })
    }
}

/// `10^n`.
pub open spec fn ten_pow(n: nat) -> nat
    decreases n,
{
    if n == 0 {
        1
    } else {
        10 * ten_pow((n - 1) as nat)
    }
}

/// A dollar amount `[+]<digits>[.<digits>]` (at least one digit, at most
/// nine after the point) in nano-dollars, if it fits in a `u64`.
pub open spec fn nano_amount(t: Seq<char>) -> Option<u64> {
    let body = if t.len() > 0 && t[0] == '+' {
        t.subrange(1, t.len() as int)
    } else {
        t
    };
    let (ip, fp) = match find(body, seq!['.']) {
        Some(p) => (body.subrange(0, p), body.subrange(p + 1, body.len() as int)),
        None => (body, seq![]),
    };
    let v = digits_value(ip) * ten_pow(9) + digits_value(fp) * ten_pow((9 - fp.len()) as nat);
    if ip.len() + fp.len() > 0 && fp.len() <= 9 && all_digits(ip) && all_digits(fp) && v <= u64::MAX {
        Some(v as u64)
    } else {
        None
    }
}

/// A port number `[+]<digits>` up to 65535.
pub open spec fn port_number(t: Seq<char>) -> Option<u16> {
    let body = if t.len() > 0 && t[0] == '+' {
        t.subrange(1, t.len() as int)
    } else {
        t
    };
    if body.len() > 0 && all_digits(body) && digits_value(body) <= u16::MAX {
        Some(digits_value(body) as u16)
    } else {
        None
    }
}

/// The configuration after reading the arguments from position `i` on.
/// `--flux-compile` and `--budget-track` switch on bytecode compilation and
/// budget enforcement; `--budget-daily`, `--plato-room` and `--plato-port`
/// take the next argument (an unreadable amount or port leaves the setting
/// as it was; a room name also switches on room coordination); other
/// arguments are skipped.
pub open spec fn config_from(args: Seq<Seq<char>>, i: nat, c: ConfigView) -> ConfigView
    decreases args.len() - i,
{
    if i >= args.len() {
        c
    } else {
        let a = args[i as int];
        let has_value = i + 1 < args.len();
        if a == "--flux-compile"@ {
            config_from(args, i + 1, ConfigView { flux_enabled: true, ..c })
        } else if a == "--budget-track"@ {
            config_from(args, i + 1, ConfigView { conservation_enabled: true, ..c })
        } else if a == "--budget-daily"@ && has_value {
            let d = match nano_amount(args[i + 1 as int]) {
                Some(v) => v,
                None => c.daily_budget,
            };
            config_from(args, i + 2, ConfigView { daily_budget: d, ..c })
        } else if a == "--plato-room"@ && has_value {
            config_from(args, i + 2, ConfigView { plato_room: args[i + 1 as int], plato_enabled: true, ..c })
        } else if a == "--plato-port"@ && has_value {
            let p = match port_number(args[i + 1 as int]) {
                Some(v) => v,
                None => c.plato_port,
            };
            config_from(args, i + 2, ConfigView { plato_port: p, ..c })
        } else {
            config_from(args, i + 1, c)
        }
    }
}

fn optional_plus(t: &[char]) -> (r: Vec<char>)
    ensures
        r@ == if t@.len() > 0 && t@[0] == '+' {
            t@.subrange(1, t@.len() as int)
        } else {
            t@
        },
{
    if t.len() > 0 && t[0] == '+' {
        sub_vec(t, 1, t.len())
    } else {
        assert(t@.subrange(0, t@.len() as int) =~= t@);
        sub_vec(t, 0, t.len())
    }
}

proof fn lemma_ten_pow_bound(n: nat)
    requires
        n <= 9,
    ensures
        1 <= ten_pow(n) <= 1_000_000_000,
    decreases n,
{
    reveal_with_fuel(ten_pow, 10);
    if n > 0 {
        lemma_ten_pow_bound((n - 1) as nat);
    }
}

/// Reads a dollar amount in nano-dollars.
pub fn parse_nano_amount(t: &[char]) -> (r: Option<u64>)
    ensures
        r == nano_amount(t@),
{
    let body = optional_plus(t);
    let dot = ['.'];
    proof {
        assert(dot@ =~= seq!['.']);
        lemma_find(body@, dot@);
    }
    let (ip, fp) = match find_exec(body.as_slice(), &dot) {
        Some(p) => {
            assert(occurs_at(body@, dot@, p as int));
            let n = body.len();
            assert(p + 1 <= n);
            (sub_vec(body.as_slice(), 0, p), sub_vec(body.as_slice(), p + 1, n))
        },
        None => {
            assert(body@.subrange(0, body@.len() as int) =~= body@);
            (sub_vec(body.as_slice(), 0, body.len()), Vec::new())
        },
    };
    assert(fp@ =~= (match find(body@, seq!['.']) {
        Some(p) => body@.subrange(p + 1, body@.len() as int),
        None => seq![],
    }));
    if ip.len() + fp.len() == 0 || fp.len() > 9 || !all_digits_exec(ip.as_slice()) || !all_digits_exec(
        fp.as_slice(),
    ) {
        return None;
    }
    let iv = match digits_value_exec(ip.as_slice()) {
        Some(v) => v,
        None => {
            proof {
                lemma_ten_pow_bound(9);
                lemma_ten_pow_bound((9 - fp@.len()) as nat);
                assert(digits_value(ip@) * ten_pow(9) >= digits_value(ip@)) by (nonlinear_arith)
                    requires
                        ten_pow(9) >= 1,
                ;
            }
            return None;
        },
    };
    let fv = match digits_value_exec(fp.as_slice()) {
        Some(v) => v,
        None => {
            proof {
                lemma_ten_pow_bound((9 - fp@.len()) as nat);
                assert(digits_value(fp@) * ten_pow((9 - fp@.len()) as nat) >= digits_value(fp@))
                    by (nonlinear_arith)
                    requires
                        ten_pow((9 - fp@.len()) as nat) >= 1,
                ;
            }
            return None;
        },
    };
    let mut scale: u128 = 1;
    let mut k: usize = fp.len();
    while k < 9
        invariant
            fp@.len() <= k <= 9,
            scale == ten_pow((k - fp@.len()) as nat),
            scale <= 1_000_000_000,
        decreases 9 - k,
    {
        proof {
            lemma_ten_pow_bound((k + 1 - fp@.len()) as nat);
        }
        scale = scale * 10;
        k = k + 1;
    }
    proof {
        reveal_with_fuel(ten_pow, 10);
    }
    assert((iv as u128) * 1_000_000_000 <= 0xffff_ffff_ffff_ffffu128 * 1_000_000_000) by (nonlinear_arith)
        requires
            iv <= 0xffff_ffff_ffff_ffffu64,
    ;
    assert((fv as u128) * scale <= 0xffff_ffff_ffff_ffffu128 * 1_000_000_000) by (nonlinear_arith)
        requires
            fv <= 0xffff_ffff_ffff_ffffu64,
            scale <= 1_000_000_000,
    ;
    let v: u128 = (iv as u128) * 1_000_000_000 + (fv as u128) * scale;
    if v > u64::MAX as u128 {
        None
    } else {
        Some(v as u64)
    }
}

/// Reads a port number.
pub fn parse_port(t: &[char]) -> (r: Option<u16>)
    ensures
        r == port_number(t@),
{
    let body = optional_plus(t);
    if body.len() == 0 || !all_digits_exec(body.as_slice()) {
        return None;
    }
    match digits_value_exec(body.as_slice()) {
        Some(v) => if v <= 65535 {
            Some(v as u16)
        } else {
            None
        },
        None => None,
    }
}

pub open spec fn args_view(args: Seq<String>) -> Seq<Seq<char>> {
    args.map_values(|s: String| s@)
}

/// Reads the integration options from command-line arguments.
pub fn parse_superinstance_args(args: &[String]) -> (c: SuperInstanceConfig)
    ensures
        c@ == config_from(args_view(args@), 0, default_config()),
{
    let mut config = SuperInstanceConfig::default();
    let ghost av = args_view(args@);
    let mut i: usize = 0;
    while i < args.len()
        invariant
            av == args_view(args@),
            i <= args@.len() + 1,
            config_from(av, 0, default_config()) == config_from(av, i as nat, config@),
        decreases args@.len() + 1 - i,
    {
        let a = chars_of(args[i].as_str());
        let has_value = i + 1 < args.len();
        assert(a@ == av[i as int]);
        if eq_str(a.as_slice(), "--flux-compile") {
            config.flux_enabled = true;
            i = i + 1;
        } else if eq_str(a.as_slice(), "--budget-track") {
            config.conservation_enabled = true;
            i = i + 1;
        } else if eq_str(a.as_slice(), "--budget-daily") && has_value {
            let v = chars_of(args[i + 1].as_str());
            match parse_nano_amount(v.as_slice()) {
                Some(d) => {
                    config.daily_budget = d;
                },
                None => {},
            }
            i = i + 2;
        } else if eq_str(a.as_slice(), "--plato-room") && has_value {
            config.plato_room = args[i + 1].clone();
            config.plato_enabled = true;
            i = i + 2;
        } else if eq_str(a.as_slice(), "--plato-port") && has_value {
            let v = chars_of(args[i + 1].as_str());
            match parse_port(v.as_slice()) {
                Some(p) => {
                    config.plato_port = p;
                },
                None => {},
            }
            i = i + 2;
        } else {
            i = i + 1;
        }
    }
    config
}

} // verus!
pub mod plato_integration;
