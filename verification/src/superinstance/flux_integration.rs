//! Bytecode for the deterministic ("crystallized") shader compilation path:
//! generation from WGSL source, structural validation, a compact binary
//! format, and an in-memory cache keyed by a hash of the source.
//!
//! Budget costs are whole numbers of nano-dollars (10^-9 USD).
use vstd::prelude::*;
use vstd::bytes::{
    spec_u32_from_le_bytes, spec_u32_to_le_bytes, spec_u64_from_le_bytes, spec_u64_to_le_bytes,
    u32_from_le_bytes, u32_to_le_bytes, u64_from_le_bytes, u64_to_le_bytes,
};
use std::collections::HashMap;
use vstd::slice::slice_subrange;
use vstd::utf8::{decode_utf8, encode_utf8, valid_utf8};
use crate::text::{
    chars_of, contains, contains_str, count_matches, count_matches_exec, nat_text, push_nat, push_str,
    string_of,
};

verus! {

/// Load a uniform into a register.
pub const OP_LOAD: u8 = 0x01;

/// Store a register to the output.
pub const OP_STORE: u8 = 0x02;

/// Execute a shader stage.
pub const OP_EXEC: u8 = 0x03;

/// Move between any two registers.
pub const OP_MOVE: u8 = 0x10;

/// A compiled bytecode program.
#[derive(Clone, Debug)]
pub struct FluxBytecode {
    /// The instructions, one opcode per byte.
    pub instructions: Vec<u8>,
    /// Register allocation: variable name and register index, names distinct.
    pub register_map: Vec<(String, u8)>,
    /// Number of general-purpose registers used.
    pub gp_registers: u8,
    /// Number of floating-point registers used.
    pub fp_registers: u8,
    /// Estimated budget cost of an execution, in nano-dollars.
    pub budget_cost: u64,
}

/// The mathematical content of a bytecode program.
pub struct FluxView {
    pub instructions: Seq<u8>,
    pub register_map: Seq<(Seq<char>, u8)>,
    pub gp_registers: u8,
    pub fp_registers: u8,
    pub budget_cost: u64,
}

pub open spec fn map_view(m: Seq<(String, u8)>) -> Seq<(Seq<char>, u8)> {
    m.map_values(|e: (String, u8)| (e.0@, e.1))
}

impl FluxBytecode {
    pub open spec fn view(&self) -> FluxView {
        FluxView {
            instructions: self.instructions@,
            register_map: map_view(self.register_map@),
            gp_registers: self.gp_registers,
            fp_registers: self.fp_registers,
            budget_cost: self.budget_cost,
        }
    }
}

/// The names of a register map are distinct.
pub open spec fn keys_distinct(m: Seq<(Seq<char>, u8)>) -> bool {
    forall|i: int, j: int| 0 <= i < j < m.len() ==> m[i].0 != m[j].0
}

/// The position of `name` in a register map.
pub open spec fn key_index(m: Seq<(Seq<char>, u8)>, name: Seq<char>) -> Option<int>
    decreases m.len(),
{
    if m.len() == 0 {
        None
    } else if m.last().0 == name {
        Some(m.len() - 1)
    } else {
        key_index(m.drop_last(), name)
    }
}

/// A register map after binding `name` to `reg`: an existing binding is
/// replaced in place, a new one is added at the end.
pub open spec fn map_insert(m: Seq<(Seq<char>, u8)>, name: Seq<char>, reg: u8) -> Seq<(Seq<char>, u8)> {
    match key_index(m, name) {
        Some(i) => m.update(i, (name, reg)),
        None => m.push((name, reg)),
    }
}

proof fn lemma_key_index(m: Seq<(Seq<char>, u8)>, name: Seq<char>)
    ensures
        key_index(m, name) matches Some(i) ==> 0 <= i < m.len() && m[i].0 == name,
        key_index(m, name) is None ==> forall|i: int| 0 <= i < m.len() ==> m[i].0 != name,
    decreases m.len(),
{
    if m.len() > 0 && m.last().0 != name {
        lemma_key_index(m.drop_last(), name);
        if key_index(m, name) is None {
            assert forall|i: int| 0 <= i < m.len() implies m[i].0 != name by {
                if i < m.len() - 1 {
                    assert(m.drop_last()[i] == m[i]);
                }
            }
        }
    }
}

/// Binds `name` to `reg` in a register map.
pub fn insert_register(map: &mut Vec<(String, u8)>, name: String, reg: u8)
    ensures
        map_view(final(map)@) == map_insert(map_view(old(map)@), name@, reg),
{
    let ghost mv = map_view(map@);
    let key = chars_of(name.as_str());
    let mut i = map.len();
    let mut found = false;
    assert(mv.subrange(0, i as int) =~= mv);
    while i > 0 && !found
        invariant
            i <= map@.len(),
            mv == map_view(map@),
            key@ == name@,
            found ==> 0 < i <= map@.len() && key_index(mv, name@) == Some(i - 1),
            !found ==> key_index(mv, name@) == key_index(mv.subrange(0, i as int), name@),
        decreases i + if found { 0int } else { 1int },
    {
        assert(mv.subrange(0, i as int).drop_last() =~= mv.subrange(0, i - 1));
        assert(mv.subrange(0, i as int).last() == mv[i - 1]);
        let k = chars_of(map[i - 1].0.as_str());
        if crate::text::eq_chars(k.as_slice(), key.as_slice()) {
            found = true;
        } else {
            i = i - 1;
        }
    }
    if found {
        map.set(i - 1, (name, reg));
        assert(map_view(map@) =~= mv.update(i - 1, (name@, reg)));
    } else {
        assert(mv.subrange(0, 0) =~= Seq::<(Seq<char>, u8)>::empty());
        map.push((name, reg));
        assert(map_view(map@) =~= mv.push((name@, reg)));
    }
}


/// The opcodes for the shader stages that a source declares: a load, a move
/// and a store for a vertex stage, a load, an execute and a store for a
/// fragment or compute stage.
pub open spec fn stage_code(vertex: bool, fragment: bool, compute: bool) -> Seq<u8> {
    (if vertex {
        seq![OP_LOAD, OP_MOVE, OP_STORE]
    } else {
        seq![]
    }) + (if fragment {
        seq![OP_LOAD, OP_EXEC, OP_STORE]
    } else {
        seq![]
    }) + (if compute {
        seq![OP_LOAD, OP_EXEC, OP_STORE]
    } else {
        seq![]
    })
}

/// Registers for `n` declarations: four, two more per declaration, at most sixteen.
/// The count is taken modulo 256, as a byte.
pub open spec fn register_count(n: nat) -> u8 {
    if 4 + 2 * (n % 256) < 16 {
        (4 + 2 * (n % 256)) as u8
    } else {
        16
    }
}

/// The cost of `n` instructions in nano-dollars: 100 per instruction, 10 for none.
pub open spec fn instruction_cost(n: nat) -> u64 {
    if n == 0 {
        10
    } else {
        (100 * n) as u64
    }
}

/// The register map of a program: the vertex and fragment entries, and the
/// compute entry when there is a compute stage.
pub open spec fn entry_registers(compute: bool) -> Seq<(Seq<char>, u8)> {
    seq![("vertex_entry"@, 0u8), ("fragment_entry"@, 1u8)] + if compute {
        seq![("compute_entry"@, 2u8)]
    } else {
        seq![]
    }
}

/// The program generated for a WGSL source.
pub open spec fn generated_program(source: Seq<char>) -> FluxView {
    let code = stage_code(
        contains(source, "@vertex"@),
        contains(source, "@fragment"@),
        contains(source, "@compute"@),
    );
    FluxView {
        instructions: code,
        register_map: entry_registers(contains(source, "@compute"@)),
        gp_registers: register_count(count_matches(source, "@group"@)),
        fp_registers: register_count(count_matches(source, "var<uniform>"@)),
        budget_cost: instruction_cost(code.len()),
    }
}

/// The register count arithmetic stays within a byte.
pub open spec fn register_counts_fit(source: Seq<char>) -> bool {
    count_matches(source, "@group"@) % 256 <= 125 && count_matches(source, "var<uniform>"@) % 256
        <= 125
}

/// Whether the register count arithmetic of a source stays within a byte.
pub fn register_counts_fit_exec(source: &str) -> (b: bool)
    ensures
        b == register_counts_fit(source@),
{
    let s = chars_of(source);
    let group = chars_of("@group");
    let uniform = chars_of("var<uniform>");
    proof {
        reveal_strlit("@group");
        reveal_strlit("var<uniform>");
    }
    let groups = count_matches_exec(s.as_slice(), group.as_slice());
    let uniforms = count_matches_exec(s.as_slice(), uniform.as_slice());
    groups % 256 <= 125 && uniforms % 256 <= 125
}

fn register_count_exec(n: usize) -> (r: u8)
    requires
        n % 256 <= 125,
    ensures
        r == register_count(n as nat),
{
    let b = (n % 256) as u8;
    let c = 4u8 + b * 2;
    if c < 16 {
        c
    } else {
        16
    }
}

/// Generates the bytecode program for a WGSL source.
pub fn generate_bytecode(source: &str) -> (b: FluxBytecode)
    requires
        register_counts_fit(source@),
    ensures
        b@ == generated_program(source@),
{
    let s = chars_of(source);
    let has_vertex = contains_str(s.as_slice(), "@vertex");
    let has_fragment = contains_str(s.as_slice(), "@fragment");
    let has_compute = contains_str(s.as_slice(), "@compute");
    let group = chars_of("@group");
    let uniform = chars_of("var<uniform>");
    proof {
        reveal_strlit("@group");
        reveal_strlit("var<uniform>");
    }
    let uniform_count = count_matches_exec(s.as_slice(), group.as_slice());
    let param_count = count_matches_exec(s.as_slice(), uniform.as_slice());
    let gp = register_count_exec(uniform_count);
    let fp = register_count_exec(param_count);
    let mut register_map: Vec<(String, u8)> = Vec::new();
    register_map.push((string_of(chars_of("vertex_entry").as_slice()), 0));
    register_map.push((string_of(chars_of("fragment_entry").as_slice()), 1));
    if has_compute {
        register_map.push((string_of(chars_of("compute_entry").as_slice()), 2));
    }
    let mut instructions: Vec<u8> = Vec::new();
    if has_vertex {
        instructions.push(OP_LOAD);
        instructions.push(OP_MOVE);
        instructions.push(OP_STORE);
    }
    if has_fragment {
        instructions.push(OP_LOAD);
        instructions.push(OP_EXEC);
        instructions.push(OP_STORE);
    }
    if has_compute {
        instructions.push(OP_LOAD);
        instructions.push(OP_EXEC);
        instructions.push(OP_STORE);
    }
    let n = instructions.len();
    let budget_cost: u64 = if n == 0 {
        10
    } else {
        100 * (n as u64)
    };
    let b = FluxBytecode { instructions, register_map, gp_registers: gp, fp_registers: fp, budget_cost };
    assert(b@.instructions =~= generated_program(source@).instructions);
    assert(b@.register_map =~= generated_program(source@).register_map);
    b
}

/// The lower-case hexadecimal digit for `d < 16`.
pub open spec fn hex_digit(d: nat) -> char {
    if d < 10 {
        crate::text::digit_char(d)
    } else if d == 10 {
        'a'
    } else if d == 11 {
        'b'
    } else if d == 12 {
        'c'
    } else if d == 13 {
        'd'
    } else if d == 14 {
        'e'
    } else {
        'f'
    }
}

fn hex_digit_exec(d: u8) -> (c: char)
    requires
        d < 16,
    ensures
        c == hex_digit(d as nat),
{
    if d < 10 {
        crate::text::digit_char_exec(d as u128)
    } else if d == 10 {
        'a'
    } else if d == 11 {
        'b'
    } else if d == 12 {
        'c'
    } else if d == 13 {
        'd'
    } else if d == 14 {
        'e'
    } else {
        'f'
    }
}

/// Whether a byte is one of the four opcodes.
pub open spec fn is_opcode(b: u8) -> bool {
    b == OP_LOAD || b == OP_STORE || b == OP_EXEC || b == OP_MOVE
}

/// The position of the first byte that is not an opcode.
pub open spec fn first_invalid(code: Seq<u8>, from: int) -> Option<int>
    decreases code.len() - from,
{
    if from >= code.len() || from < 0 {
        None
    } else if !is_opcode(code[from]) {
        Some(from)
    } else {
        first_invalid(code, from + 1)
    }
}

/// The message for an invalid opcode `b` at position `i`.
pub open spec fn invalid_opcode_message(b: u8, i: nat) -> Seq<char> {
    "Invalid opcode 0x"@ + seq![hex_digit((b / 16) as nat), hex_digit((b % 16) as nat)]
        + " at position "@ + nat_text(i)
}

/// The outcome of executing a program: an error for an empty program or for
/// the first byte that is not an opcode, else an empty output.
pub open spec fn execution_outcome(code: Seq<u8>) -> Result<Seq<u8>, Seq<char>> {
    if code.len() == 0 {
        Err("Empty bytecode program"@)
    } else {
        match first_invalid(code, 0) {
            Some(i) => Err(invalid_opcode_message(code[i], i as nat)),
            None => Ok(seq![]),
        }
    }
}

proof fn lemma_first_invalid_step(code: Seq<u8>, from: int)
    requires
        0 <= from < code.len(),
        is_opcode(code[from]),
    ensures
        first_invalid(code, from) == first_invalid(code, from + 1),
{
}


/// The message for an invalid opcode `b` at position `i`.
fn invalid_opcode_text(b: u8, i: usize) -> (r: String)
    ensures
        r@ == invalid_opcode_message(b, i as nat),
{
    let mut out: Vec<char> = Vec::new();
    push_str(&mut out, "Invalid opcode 0x");
    out.push(hex_digit_exec(b / 16));
    out.push(hex_digit_exec(b % 16));
    push_str(&mut out, " at position ");
    push_nat(&mut out, i as u128);
    assert(out@ =~= invalid_opcode_message(b, i as nat));
    string_of(out.as_slice())
}

/// Checks that a program is non-empty and made of opcodes only, and runs it;
/// a valid program produces no output.
pub fn execute_bytecode(bytecode: &FluxBytecode) -> (r: Result<Vec<u8>, String>)
    ensures
        match r {
            Ok(out) => execution_outcome(bytecode.instructions@) == Ok::<Seq<u8>, Seq<char>>(out@),
            Err(m) => execution_outcome(bytecode.instructions@) == Err::<Seq<u8>, Seq<char>>(m@),
        },
{
    let code = &bytecode.instructions;
    if code.len() == 0 {
        return Err(string_of(chars_of("Empty bytecode program").as_slice()));
    }
    let mut i: usize = 0;
    while i < code.len()
        invariant
            i <= code@.len(),
            code@.len() > 0,
            code@ == bytecode.instructions@,
            first_invalid(code@, 0) == first_invalid(code@, i as int),
        decreases code@.len() - i,
    {
        let b = code[i];
        if !(b == OP_LOAD || b == OP_STORE || b == OP_EXEC || b == OP_MOVE) {
            assert(first_invalid(code@, i as int) == Some(i as int));
            let m = invalid_opcode_text(b, i);
            assert(execution_outcome(bytecode.instructions@) == Err::<Seq<u8>, Seq<char>>(m@));
            return Err(m);
        }
        proof {
            lemma_first_invalid_step(code@, i as int);
        }
        i = i + 1;
    }
    let out: Vec<u8> = Vec::new();
    assert(out@ =~= Seq::<u8>::empty());
    Ok(out)
}

/// The hash of a source text, the key of the bytecode cache.
pub uninterp spec fn source_hash(source: Seq<char>) -> u64;

/// Hashes a source text with the standard library's `DefaultHasher`
/// (`Hash for str`, then `Hasher::finish`). The contract claims only that the
/// result is a function of the text; which function is not stated.
#[verifier::external_body]
pub(crate) fn hash_source(source: &str) -> (h: u64)
    ensures
        h == source_hash(source@),
{
    let mut hasher = std::collections::hash_map::DefaultHasher::new();
    std::hash::Hash::hash(source, &mut hasher);
    std::hash::Hasher::finish(&hasher)
}

/// A copy of a program.
pub fn copy_bytecode(b: &FluxBytecode) -> (r: FluxBytecode)
    ensures
        r@ == b@,
{
    let instructions = vstd::slice::slice_to_vec(b.instructions.as_slice());
    let mut register_map: Vec<(String, u8)> = Vec::new();
    let mut i: usize = 0;
    while i < b.register_map.len()
        invariant
            i <= b.register_map@.len(),
            map_view(register_map@) == map_view(b.register_map@).subrange(0, i as int),
        decreases b.register_map@.len() - i,
    {
        let name = string_of(chars_of(b.register_map[i].0.as_str()).as_slice());
        assert(name@ == b.register_map@[i as int].0@);
        let ghost before = register_map@;
        register_map.push((name, b.register_map[i].1));
        assert(register_map@ == before.push((name, b.register_map@[i as int].1)));
        assert(map_view(register_map@) =~= map_view(before).push(map_view(b.register_map@)[i as int]));
        i = i + 1;
        assert(map_view(b.register_map@).subrange(0, i as int) =~= map_view(b.register_map@).subrange(
            0,
            i - 1,
        ).push(map_view(b.register_map@)[i - 1]));
    }
    assert(map_view(b.register_map@).subrange(0, i as int) =~= map_view(b.register_map@));
    let r = FluxBytecode {
        instructions,
        register_map,
        gp_registers: b.gp_registers,
        fp_registers: b.fp_registers,
        budget_cost: b.budget_cost,
    };
    assert(r@.register_map =~= b@.register_map);
    r
}

/// Statistics about the bytecode cache.
#[derive(Clone, Debug)]
pub struct CacheStats {
    pub entries: usize,
    pub cache_dir: String,
    pub enabled: bool,
}

/// The message of the error returned while the compiler is disabled.
pub const DISABLED_MESSAGE: &'static str = "FLUX compiler is not enabled";

/// What an enabled compiler returns for a source and its cache afterwards:
/// the program cached under the source's hash, or else the generated
/// program, which is then cached under that hash.
pub open spec fn compiled(cache: Map<u64, FluxView>, source: Seq<char>) -> (FluxView, Map<u64, FluxView>) {
    let key = source_hash(source);
    if cache.contains_key(key) {
        (cache[key], cache)
    } else {
        (generated_program(source), cache.insert(key, generated_program(source)))
    }
}

/// Compiling a source a second time returns the same program and leaves the
/// cache as the first compile left it.
pub proof fn lemma_compile_twice(cache: Map<u64, FluxView>, source: Seq<char>)
    ensures
        compiled(compiled(cache, source).1, source) == compiled(cache, source),
{
}

/// Compiles WGSL sources to bytecode and remembers each program under the
/// hash of its source.
pub struct FluxCompiler {
    cache: HashMap<u64, FluxBytecode>,
    cache_dir: String,
    enabled: bool,
}

impl FluxCompiler {
    /// The cached programs, by the hash of their source.
    pub closed spec fn spec_cache(&self) -> Map<u64, FluxView> {
        self.cache@.map_values(|b: FluxBytecode| b@)
    }

    pub closed spec fn spec_enabled(&self) -> bool {
        self.enabled
    }

    pub closed spec fn spec_cache_dir(&self) -> Seq<char> {
        self.cache_dir@
    }

    /// A disabled compiler with an empty cache kept under `.flux-cache`.
    pub fn new() -> (c: Self)
        ensures
            !c.spec_enabled(),
            c.spec_cache() == Map::<u64, FluxView>::empty(),
            c.spec_cache_dir() == ".flux-cache"@,
    {
        let c = FluxCompiler {
            cache: HashMap::new(),
            cache_dir: string_of(chars_of(".flux-cache").as_slice()),
            enabled: false,
        };
        assert(c.spec_cache() =~= Map::<u64, FluxView>::empty());
        c
    }

    /// An enabled compiler with an empty cache kept under `cache_dir`.
    pub fn with_cache_dir(cache_dir: String) -> (c: Self)
        ensures
            c.spec_enabled(),
            c.spec_cache() == Map::<u64, FluxView>::empty(),
            c.spec_cache_dir() == cache_dir@,
    {
        let c = FluxCompiler { cache: HashMap::new(), cache_dir, enabled: true };
        assert(c.spec_cache() =~= Map::<u64, FluxView>::empty());
        c
    }

    pub fn set_enabled(&mut self, enabled: bool)
        ensures
            final(self).spec_enabled() == enabled,
            final(self).spec_cache() == old(self).spec_cache(),
            final(self).spec_cache_dir() == old(self).spec_cache_dir(),
    {
        self.enabled = enabled;
    }

    pub fn is_enabled(&self) -> (b: bool)
        ensures
            b == self.spec_enabled(),
    {
        self.enabled
    }

    /// The directory where programs are kept on disk.
    pub fn cache_dir(&self) -> (d: String)
        ensures
            d@ == self.spec_cache_dir(),
    {
        string_of(chars_of(self.cache_dir.as_str()).as_slice())
    }

    /// Compiles a source to bytecode. A disabled compiler refuses; an enabled
    /// one returns the program cached under the source's hash, or generates
    /// the program and caches it.
    pub fn compile_to_bytecode(&mut self, source: &str) -> (r: Result<FluxBytecode, String>)
        requires
            register_counts_fit(source@),
        ensures
            final(self).spec_enabled() == old(self).spec_enabled(),
            final(self).spec_cache_dir() == old(self).spec_cache_dir(),
            !old(self).spec_enabled() ==> (r matches Err(m) && m@ == DISABLED_MESSAGE@
                && final(self).spec_cache() == old(self).spec_cache()),
            old(self).spec_enabled() ==> (r matches Ok(b) && (b@, final(self).spec_cache()) == compiled(
                old(self).spec_cache(),
                source@,
            )),
    {
        if !self.enabled {
            return Err(string_of(chars_of(DISABLED_MESSAGE).as_slice()));
        }
        let key = hash_source(source);
        let ghost cv = self.spec_cache();
        proof {
            broadcast use vstd::std_specs::hash::group_hash_axioms;
        }
        match self.cache.get(&key) {
            Some(cached) => {
                let b = copy_bytecode(cached);
                Ok(b)
            },
            None => {
                let b = generate_bytecode(source);
                let copy = copy_bytecode(&b);
                self.cache.insert(key, copy);
                assert(self.spec_cache() =~= cv.insert(key, b@));
                Ok(b)
            },
        }
    }

    /// The key under which the program for a source is cached.
    pub fn source_key(&self, source: &str) -> (k: u64)
        ensures
            k == source_hash(source@),
    {
        hash_source(source)
    }

    /// The number of cached programs, the cache directory and whether the compiler is enabled.
    pub fn cache_stats(&self) -> (s: CacheStats)
        ensures
            s.entries == self.spec_cache().len(),
            s.cache_dir@ == self.spec_cache_dir(),
            s.enabled == self.spec_enabled(),
    {
        proof {
            broadcast use vstd::std_specs::hash::group_hash_axioms;

            assert(self.spec_cache().dom() =~= self.cache@.dom());
        }
        CacheStats { entries: self.cache.len(), cache_dir: self.cache_dir(), enabled: self.enabled }
    }

    /// Checks and runs a program.
    pub fn execute(&self, bytecode: &FluxBytecode) -> (r: Result<Vec<u8>, String>)
        ensures
            match r {
                Ok(out) => execution_outcome(bytecode.instructions@) == Ok::<Seq<u8>, Seq<char>>(out@),
                Err(m) => execution_outcome(bytecode.instructions@) == Err::<Seq<u8>, Seq<char>>(m@),
            },
    {
        execute_bytecode(bytecode)
    }
}


// ---------------------------------------------------------------------------
// Binary format
// ---------------------------------------------------------------------------

/// A register map entry: the name's UTF-8 length (four bytes, little endian),
/// the name's bytes and the register.
pub open spec fn encode_entry(e: (Seq<char>, u8)) -> Seq<u8> {
    spec_u32_to_le_bytes(encode_utf8(e.0).len() as u32) + encode_utf8(e.0) + seq![e.1]
}

pub open spec fn encode_entries(m: Seq<(Seq<char>, u8)>) -> Seq<u8>
    decreases m.len(),
{
    if m.len() == 0 {
        seq![]
    } else {
        encode_entry(m[0]) + encode_entries(m.drop_first())
    }
}

/// The binary form of a program: the instruction count (four bytes, little
/// endian) and the instructions, the two register counts, the budget cost
/// (eight bytes, little endian), the number of register map entries (four
/// bytes) and the entries. Lengths are written modulo `2^32`.
pub open spec fn encode_program(b: FluxView) -> Seq<u8> {
    spec_u32_to_le_bytes(b.instructions.len() as u32) + b.instructions + seq![
        b.gp_registers,
        b.fp_registers,
    ] + spec_u64_to_le_bytes(b.budget_cost) + spec_u32_to_le_bytes(b.register_map.len() as u32)
        + encode_entries(b.register_map)
}

proof fn lemma_encode_entries_push(m: Seq<(Seq<char>, u8)>, e: (Seq<char>, u8))
    ensures
        encode_entries(m.push(e)) == encode_entries(m) + encode_entry(e),
    decreases m.len(),
{
    if m.len() == 0 {
        assert(m.push(e).drop_first() =~= Seq::<(Seq<char>, u8)>::empty());
        assert(m.push(e)[0] == e);
        assert(encode_entries(Seq::<(Seq<char>, u8)>::empty()) == Seq::<u8>::empty());
        assert(encode_entries(m) == Seq::<u8>::empty());
        assert(encode_entries(m.push(e)) =~= encode_entry(e) + Seq::<u8>::empty());
    } else {
        assert(m.push(e).drop_first() =~= m.drop_first().push(e));
        lemma_encode_entries_push(m.drop_first(), e);
        assert(encode_entries(m.push(e)) =~= encode_entries(m) + encode_entry(e));
    }
}

/// Writes a program in the binary format.
pub fn bincode_serialize(bytecode: &FluxBytecode) -> (r: Result<Vec<u8>, String>)
    ensures
        r matches Ok(v) && v@ == encode_program(bytecode@),
{
    let mut buf: Vec<u8> = Vec::new();
    let len = bytecode.instructions.len() as u32;
    let mut a = u32_to_le_bytes(len);
    buf.append(&mut a);
    let mut ins = vstd::slice::slice_to_vec(bytecode.instructions.as_slice());
    buf.append(&mut ins);
    buf.push(bytecode.gp_registers);
    buf.push(bytecode.fp_registers);
    let mut c = u64_to_le_bytes(bytecode.budget_cost);
    buf.append(&mut c);
    let map_len = bytecode.register_map.len() as u32;
    let mut d = u32_to_le_bytes(map_len);
    buf.append(&mut d);
    let ghost head = buf@;
    let ghost mv = map_view(bytecode.register_map@);
    let mut i: usize = 0;
    assert(mv.subrange(0, 0) =~= Seq::<(Seq<char>, u8)>::empty());
    assert(buf@ =~= head + encode_entries(mv.subrange(0, 0)));
    while i < bytecode.register_map.len()
        invariant
            i <= bytecode.register_map@.len(),
            mv == map_view(bytecode.register_map@),
            buf@ == head + encode_entries(mv.subrange(0, i as int)),
        decreases bytecode.register_map@.len() - i,
    {
        let name_bytes = bytecode.register_map[i].0.as_str().as_bytes();
        let name_len = name_bytes.len() as u32;
        let mut l = u32_to_le_bytes(name_len);
        buf.append(&mut l);
        let mut nb = vstd::slice::slice_to_vec(name_bytes);
        buf.append(&mut nb);
        buf.push(bytecode.register_map[i].1);
        proof {
            lemma_encode_entries_push(mv.subrange(0, i as int), mv[i as int]);
            assert(mv.subrange(0, i + 1) =~= mv.subrange(0, i as int).push(mv[i as int]));
        }
        i = i + 1;
        assert(buf@ =~= head + encode_entries(mv.subrange(0, i as int)));
    }
    assert(mv.subrange(0, i as int) =~= mv);
    assert(buf@ =~= encode_program(bytecode@));
    Ok(buf)
}

/// Reads `count` register map entries starting at `off`, binding each in `acc`.
pub open spec fn decode_entries(d: Seq<u8>, off: int, count: nat, acc: Seq<(Seq<char>, u8)>) -> Result<
    (Seq<(Seq<char>, u8)>, int),
    Seq<char>,
>
    decreases count,
{
    if count == 0 {
        Ok((acc, off))
    } else if off + 4 > d.len() {
        Err("Truncated map entry"@)
    } else {
        let n = spec_u32_from_le_bytes(d.subrange(off, off + 4)) as int;
        let o = off + 4;
        if o + n + 1 > d.len() {
            Err("Truncated map entry name"@)
        } else if !valid_utf8(d.subrange(o, o + n)) {
            Err("Invalid UTF-8 in register map"@)
        } else {
            decode_entries(
                d,
                o + n + 1,
                (count - 1) as nat,
                map_insert(acc, decode_utf8(d.subrange(o, o + n)), d[o + n]),
            )
        }
    }
}

/// The program read from bytes in the binary format, or what is wrong with them.
/// Bytes after the last entry are ignored.
pub open spec fn decode_program(d: Seq<u8>) -> Result<FluxView, Seq<char>> {
    if 4 > d.len() {
        Err("Truncated data"@)
    } else {
        let il = spec_u32_from_le_bytes(d.subrange(0, 4)) as int;
        if 4 + il > d.len() {
            Err("Truncated instructions"@)
        } else {
            let off = 4 + il;
            if off + 2 > d.len() {
                Err("Truncated register data"@)
            } else if off + 10 > d.len() {
                Err("Truncated budget data"@)
            } else if off + 14 > d.len() {
                Err("Truncated map length"@)
            } else {
                let ml = spec_u32_from_le_bytes(d.subrange(off + 10, off + 14)) as nat;
                match decode_entries(d, off + 14, ml, seq![]) {
                    Ok((m, _)) => Ok(
                        FluxView {
                            instructions: d.subrange(4, off),
                            register_map: m,
                            gp_registers: d[off],
                            fp_registers: d[off + 1],
                            budget_cost: spec_u64_from_le_bytes(d.subrange(off + 2, off + 10)),
                        },
                    ),
                    Err(e) => Err(e),
                }
            }
        }
    }
}

/// Decodes UTF-8 with the standard library's `String::from_utf8`, which
/// fails exactly on byte sequences that are not valid UTF-8.
#[verifier::external_body]
fn utf8_to_string(bytes: &[u8]) -> (r: Option<String>)
    ensures
        match r {
            Some(s) => valid_utf8(bytes@) && s@ == decode_utf8(bytes@),
            None => !valid_utf8(bytes@),
        },
{
    String::from_utf8(bytes.to_vec()).ok()
}

fn error_text(s: &str) -> (r: String)
    ensures
        r@ == s@,
{
    string_of(chars_of(s).as_slice())
}

/// Reads a program from bytes in the binary format.
pub fn bincode_deserialize(data: &[u8]) -> (r: Result<FluxBytecode, String>)
    ensures
        match r {
            Ok(b) => decode_program(data@) == Ok::<FluxView, Seq<char>>(b@),
            Err(m) => decode_program(data@) == Err::<FluxView, Seq<char>>(m@),
        },
{
    let n = data.len();
    if n < 4 {
        return Err(error_text("Truncated data"));
    }
    let instr_len = u32_from_le_bytes(slice_subrange(data, 0, 4)) as usize;
    if n - 4 < instr_len {
        return Err(error_text("Truncated instructions"));
    }
    let instructions = vstd::slice::slice_to_vec(slice_subrange(data, 4, 4 + instr_len));
    let off = 4 + instr_len;
    if n - off < 2 {
        return Err(error_text("Truncated register data"));
    }
    let gp_registers = data[off];
    let fp_registers = data[off + 1];
    if n - off < 10 {
        return Err(error_text("Truncated budget data"));
    }
    let budget_cost = u64_from_le_bytes(slice_subrange(data, off + 2, off + 10));
    if n - off < 14 {
        return Err(error_text("Truncated map length"));
    }
    let map_len = u32_from_le_bytes(slice_subrange(data, off + 10, off + 14));
    let mut register_map: Vec<(String, u8)> = Vec::new();
    let mut pos = off + 14;
    let mut k: u32 = 0;
    let ghost d = data@;
    let ghost total = decode_entries(d, (off + 14) as int, map_len as nat, seq![]);
    let ghost whole = match total {
        Ok((m, _)) => Ok(
            FluxView {
                instructions: instructions@,
                register_map: m,
                gp_registers,
                fp_registers,
                budget_cost,
            },
        ),
        Err(e) => Err(e),
    };
    assert(instructions@ =~= d.subrange(4, off as int));
    assert(decode_program(d) == whole);
    assert(map_view(register_map@) =~= Seq::<(Seq<char>, u8)>::empty());
    while k < map_len
        invariant
            d == data@,
            n == d.len(),
            k <= map_len,
            pos <= n,
            total == decode_entries(d, (off + 14) as int, map_len as nat, seq![]),
            total == decode_entries(d, pos as int, (map_len - k) as nat, map_view(register_map@)),
            decode_program(d) == whole,
            whole == match total {
                Ok((m, _)) => Ok(
                    FluxView {
                        instructions: instructions@,
                        register_map: m,
                        gp_registers,
                        fp_registers,
                        budget_cost,
                    },
                ),
                Err(e) => Err::<FluxView, Seq<char>>(e),
            },
        decreases map_len - k,
    {
        if n - pos < 4 {
            return Err(error_text("Truncated map entry"));
        }
        let name_len = u32_from_le_bytes(slice_subrange(data, pos, pos + 4)) as usize;
        let o = pos + 4;
        if n - o < name_len || n - o - name_len < 1 {
            return Err(error_text("Truncated map entry name"));
        }
        let name = match utf8_to_string(slice_subrange(data, o, o + name_len)) {
            Some(s) => s,
            None => {
                return Err(error_text("Invalid UTF-8 in register map"));
            },
        };
        let reg = data[o + name_len];
        insert_register(&mut register_map, name, reg);
        pos = o + name_len + 1;
        k = k + 1;
    }
    let b = FluxBytecode { instructions, register_map, gp_registers, fp_registers, budget_cost };
    Ok(b)
}


/// A program whose lengths fit the format's four-byte fields and whose
/// register names are distinct.
pub open spec fn encodable(b: FluxView) -> bool {
    &&& b.instructions.len() <= u32::MAX
    &&& b.register_map.len() <= u32::MAX
    &&& keys_distinct(b.register_map)
    &&& forall|i: int|
        0 <= i < b.register_map.len() ==> encode_utf8((#[trigger] b.register_map[i]).0).len()
            <= u32::MAX
}

proof fn lemma_decode_entries(
    d: Seq<u8>,
    off: int,
    m: Seq<(Seq<char>, u8)>,
    acc: Seq<(Seq<char>, u8)>,
)
    requires
        0 <= off,
        off + encode_entries(m).len() <= d.len(),
        d.subrange(off, off + encode_entries(m).len()) == encode_entries(m),
        keys_distinct(acc + m),
        forall|i: int| 0 <= i < m.len() ==> encode_utf8((#[trigger] m[i]).0).len() <= u32::MAX,
    ensures
        decode_entries(d, off, m.len(), acc) == Ok::<(Seq<(Seq<char>, u8)>, int), Seq<char>>(
            (acc + m, off + encode_entries(m).len()),
        ),
    decreases m.len(),
{
    if m.len() == 0 {
        assert(acc + m =~= acc);
    } else {
        let e = m[0];
        let rest = m.drop_first();
        let nb = encode_utf8(e.0);
        let n = nb.len() as int;
        let ent = encode_entries(m);
        assert(ent == encode_entry(e) + encode_entries(rest));
        vstd::bytes::lemma_auto_spec_u32_to_from_le_bytes();
        assert(spec_u32_to_le_bytes(n as u32).len() == 4);
        assert(encode_entry(e).len() == 4 + n + 1);
        assert(d.subrange(off, off + 4) =~= ent.subrange(0, 4));
        assert(ent.subrange(0, 4) =~= spec_u32_to_le_bytes(n as u32));
        assert((n as u32) as int == n);
        assert(spec_u32_from_le_bytes(d.subrange(off, off + 4)) == n as u32);
        let o = off + 4;
        assert(ent.subrange(4, 4 + n) =~= nb);
        assert(d.subrange(o, o + n) =~= ent.subrange(4, 4 + n));
        vstd::utf8::encode_utf8_valid_utf8(e.0);
        vstd::utf8::encode_utf8_decode_utf8(e.0);
        assert(d[o + n] == ent[4 + n]);
        assert(d[o + n] == e.1);
        assert forall|i: int| 0 <= i < acc.len() implies acc[i].0 != e.0 by {
            assert((acc + m)[i] == acc[i]);
            assert((acc + m)[acc.len() as int] == e);
        }
        lemma_key_index(acc, e.0);
        assert(map_insert(acc, e.0, e.1) == acc.push(e));
        assert(acc.push(e) + rest =~= acc + m);
        let off2 = o + n + 1;
        assert(d.subrange(off2, off2 + encode_entries(rest).len()) =~= encode_entries(rest)) by {
            assert(d.subrange(off2, off2 + encode_entries(rest).len()) =~= ent.subrange(
                4 + n + 1,
                ent.len() as int,
            ));
        }
        assert forall|i: int| 0 <= i < rest.len() implies encode_utf8((#[trigger] rest[i]).0).len()
            <= u32::MAX by {
            assert(rest[i] == m[i + 1]);
        }
        lemma_decode_entries(d, off2, rest, acc.push(e));
    }
}

/// Reading the binary form of an encodable program gives the program back.
pub proof fn lemma_serialize_roundtrip(b: FluxView)
    requires
        encodable(b),
    ensures
        decode_program(encode_program(b)) == Ok::<FluxView, Seq<char>>(b),
{
    let d = encode_program(b);
    let il = b.instructions.len() as int;
    let ml = b.register_map.len() as int;
    vstd::bytes::lemma_auto_spec_u32_to_from_le_bytes();
    vstd::bytes::lemma_auto_spec_u64_to_from_le_bytes();
    let a = spec_u32_to_le_bytes(il as u32);
    let c = spec_u64_to_le_bytes(b.budget_cost);
    let l = spec_u32_to_le_bytes(ml as u32);
    let ent = encode_entries(b.register_map);
    assert(a.len() == 4 && c.len() == 8 && l.len() == 4);
    assert(d =~= a + b.instructions + seq![b.gp_registers, b.fp_registers] + c + l + ent);
    assert(d.subrange(0, 4) =~= a);
    assert((il as u32) as int == il);
    let off = 4 + il;
    assert(d.subrange(4, off) =~= b.instructions);
    assert(d[off] == b.gp_registers);
    assert(d[off + 1] == b.fp_registers);
    assert(d.subrange(off + 2, off + 10) =~= c);
    assert(d.subrange(off + 10, off + 14) =~= l);
    assert((ml as u32) as int == ml);
    assert(d.subrange(off + 14, off + 14 + ent.len()) =~= ent);
    assert(Seq::<(Seq<char>, u8)>::empty() + b.register_map =~= b.register_map);
    lemma_decode_entries(d, off + 14, b.register_map, seq![]);
}

proof fn lemma_decode_entries_prefix(
    d: Seq<u8>,
    k: int,
    off: int,
    m: Seq<(Seq<char>, u8)>,
    acc: Seq<(Seq<char>, u8)>,
)
    requires
        0 <= off <= k <= d.len(),
        off + encode_entries(m).len() <= d.len(),
        d.subrange(off, off + encode_entries(m).len()) == encode_entries(m),
        k < off + encode_entries(m).len(),
        forall|i: int| 0 <= i < m.len() ==> encode_utf8((#[trigger] m[i]).0).len() <= u32::MAX,
    ensures
        decode_entries(d.subrange(0, k), off, m.len(), acc) is Err,
    decreases m.len(),
{
    let p = d.subrange(0, k);
    if m.len() == 0 {
        assert(encode_entries(m).len() == 0);
    } else {
        let e = m[0];
        let rest = m.drop_first();
        let nb = encode_utf8(e.0);
        let n = nb.len() as int;
        let ent = encode_entries(m);
        assert(ent == encode_entry(e) + encode_entries(rest));
        vstd::bytes::lemma_auto_spec_u32_to_from_le_bytes();
        assert(spec_u32_to_le_bytes(n as u32).len() == 4);
        assert(encode_entry(e).len() == 4 + n + 1);
        if off + 4 <= k {
            assert(p.subrange(off, off + 4) =~= d.subrange(off, off + 4));
            assert(d.subrange(off, off + 4) =~= ent.subrange(0, 4));
            assert(ent.subrange(0, 4) =~= spec_u32_to_le_bytes(n as u32));
            assert((n as u32) as int == n);
            assert(spec_u32_from_le_bytes(p.subrange(off, off + 4)) == n as u32);
            let o = off + 4;
            if o + n + 1 <= k {
                assert(p.subrange(o, o + n) =~= d.subrange(o, o + n));
                assert(d.subrange(o, o + n) =~= ent.subrange(4, 4 + n));
                assert(ent.subrange(4, 4 + n) =~= nb);
                vstd::utf8::encode_utf8_valid_utf8(e.0);
                let off2 = o + n + 1;
                assert(d.subrange(off2, off2 + encode_entries(rest).len()) =~= encode_entries(rest)) by {
                    assert(d.subrange(off2, off2 + encode_entries(rest).len()) =~= ent.subrange(
                        4 + n + 1,
                        ent.len() as int,
                    ));
                }
                assert forall|i: int| 0 <= i < rest.len() implies encode_utf8((#[trigger] rest[i]).0).len()
                    <= u32::MAX by {
                    assert(rest[i] == m[i + 1]);
                }
                lemma_decode_entries_prefix(
                    d,
                    k,
                    off2,
                    rest,
                    map_insert(acc, decode_utf8(p.subrange(o, o + n)), p[o + n]),
                );
            }
        }
    }
}

/// Every proper prefix of the binary form of an encodable program is
/// refused: reading stops with an error, never with a program.
pub proof fn lemma_truncated_encoding_refused(b: FluxView, k: int)
    requires
        encodable(b),
        0 <= k < encode_program(b).len(),
    ensures
        decode_program(encode_program(b).subrange(0, k)) is Err,
{
    let d = encode_program(b);
    let p = d.subrange(0, k);
    let il = b.instructions.len() as int;
    let ml = b.register_map.len() as int;
    vstd::bytes::lemma_auto_spec_u32_to_from_le_bytes();
    vstd::bytes::lemma_auto_spec_u64_to_from_le_bytes();
    let a = spec_u32_to_le_bytes(il as u32);
    let c = spec_u64_to_le_bytes(b.budget_cost);
    let l = spec_u32_to_le_bytes(ml as u32);
    let ent = encode_entries(b.register_map);
    assert(a.len() == 4 && c.len() == 8 && l.len() == 4);
    assert(d =~= a + b.instructions + seq![b.gp_registers, b.fp_registers] + c + l + ent);
    if 4 <= k {
        assert(p.subrange(0, 4) =~= a);
        assert((il as u32) as int == il);
        let off = 4 + il;
        if off + 14 <= k {
            assert(p.subrange(off + 10, off + 14) =~= l);
            assert((ml as u32) as int == ml);
            assert(d.subrange(off + 14, off + 14 + ent.len()) =~= ent);
            lemma_decode_entries_prefix(d, k, off + 14, b.register_map, seq![]);
        }
    }
}

} // verus!
