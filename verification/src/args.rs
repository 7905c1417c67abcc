//! The arguments of an emission, as a command line gives them.
use vstd::prelude::*;

use crate::emit_config::EmitConfig;
use crate::fusion::WholeGraphFusionDecisions;
use crate::text::{begins, same_text, starts_with, text};

verus! {

/// Whether a text is made of decimal digits.
pub open spec fn all_digits(s: Seq<char>) -> bool {
    forall|i: int| 0 <= i < s.len() ==> '0' <= (#[trigger] s[i]) <= '9'
}

/// The number that decimal digits give.
pub open spec fn digits_value(s: Seq<char>) -> nat
    decreases s.len(),
{
    if s.len() == 0 {
        0
    } else {
        digits_value(s.drop_last()) * 10 + (s.last() as nat - '0' as nat) as nat
    }
}

/// The digits of a number: behind a plus sign, where there is one.
pub open spec fn digits_of(s: Seq<char>) -> Seq<char> {
    if s.len() > 0 && s[0] == '+' { s.subrange(1, s.len() as int) } else { s }
}

/// The number that a text gives, where it is one and fits thirty-two bits.
pub open spec fn number(s: Seq<char>) -> Option<u32> {
    let d = digits_of(s);
    if d.len() > 0 && all_digits(d) && digits_value(d) <= u32::MAX {
        Some(digits_value(d) as u32)
    } else {
        None
    }
}

proof fn digits_value_grows(s: Seq<char>, i: int)
    requires
        0 <= i <= s.len(),
    ensures
        digits_value(s.take(i)) <= digits_value(s),
    decreases s.len() - i,
{
    if i < s.len() {
        assert(s.take(i + 1).drop_last() =~= s.take(i));
        digits_value_grows(s, i + 1);
    } else {
        assert(s.take(i) =~= s);
    }
}

/// The number that a text gives.
pub fn parse_u32(s: &str) -> (r: Option<u32>)
    ensures
        r == number(s@),
{
    let n: usize = s.unicode_len();
    let start: usize = if n > 0 && s.get_char(0) == '+' { 1 } else { 0 };
    let ghost d = digits_of(s@);
    if start == n {
        return None;
    }
    let mut v: u64 = 0;
    let mut i: usize = start;
    while i < n
        invariant
            n == s@.len(),
            start <= i <= n,
            start < n,
            start == (if s@[0] == '+' { 1int } else { 0int }),
            d == digits_of(s@),
            d.len() == n - start,
            forall|j: int| 0 <= j < d.len() ==> (#[trigger] d[j]) == s@[j + start],
            forall|j: int| 0 <= j < i - start ==> '0' <= (#[trigger] d[j]) <= '9',
            v == digits_value(d.take(i - start)),
            v <= u32::MAX,
        decreases n - i,
    {
        let c: char = s.get_char(i);
        proof {
            assert(d[i - start] == c);
            assert(d.take(i + 1 - start).drop_last() =~= d.take(i - start));
            assert(d.take(i + 1 - start).last() == c);
        }
        if c < '0' || c > '9' {
            return None;
        }
        v = v * 10 + (c as u64 - '0' as u64);
        if v > u32::MAX as u64 {
            proof {
                digits_value_grows(d, i + 1 - start);
            }
            return None;
        }
        i = i + 1;
    }
    proof {
        assert(d.take(n - start) =~= d);
    }
    Some(v as u32)
}

/// How a target's cache is parted: how many domains it has, and the domain of each workgroup.
#[derive(PartialEq, Eq, Debug)]
pub struct L2Layout {
    pub domains: u32,
    pub domain_of: Vec<u32>,
}

/// What an emission is asked for.
pub struct EmitArgs {
    pub dir: String,
    pub ctx: u32,
    pub out: String,
    pub n_cu: u32,
    pub tp: u32,
    pub block_spec: Option<String>,
    pub embed_cubin: Option<String>,
    pub embed_hsaco: Option<String>,
    pub rope_gen: bool,
    /// The cache domains that instructions are placed over, where they are.
    pub l2_layout: Option<L2Layout>,
    pub gpu: String,
    pub arch: String,
    /// The settings, where the caller has them; else they come from the environment.
    pub emit_cfg: Option<EmitConfig>,
    pub whole_graph_fusions: WholeGraphFusionDecisions,
}

/// Why a command line is refused.
#[derive(Clone, Copy, PartialEq, Eq, Debug, Structural)]
pub enum CliError {
    /// An option stands last, without its value.
    MissingValue,
    /// The number of devices is no number.
    Devices,
    /// No model directory.
    NoDir,
    /// No context length, or one that is no number.
    Context,
}

/// What the options and the positions of a command line give so far.
pub struct CliView {
    pub tp: u32,
    pub block: Option<Seq<char>>,
    pub cubin: Option<Seq<char>>,
    pub hsaco: Option<Seq<char>>,
    pub pos: Seq<Seq<char>>,
}

/// The values of a list of texts.
pub open spec fn texts(v: Seq<String>) -> Seq<Seq<char>> {
    Seq::new(v.len(), |i: int| v[i]@)
}

/// The value of a text that may be missing.
pub open spec fn opt_text(v: Option<String>) -> Option<Seq<char>> {
    match v {
        Some(s) => Some(s@),
        None => None,
    }
}

/// The part of a text behind its first `n` characters.
pub open spec fn behind(s: Seq<char>, n: int) -> Seq<char> {
    s.subrange(n, s.len() as int)
}

/// A command line read from argument `i` on.
///
/// `--tp`, `--block`, `--embed-cubin` and `--embed-hsaco` take the next argument or what stands
/// behind an equals sign; everything else is a position.
pub open spec fn scan(argv: Seq<Seq<char>>, s: CliView, i: int) -> Result<CliView, CliError>
    decreases argv.len() - i,
{
    if i >= argv.len() {
        Ok(s)
    } else {
        let a = argv[i];
        if a == "--tp"@ {
            if i + 1 >= argv.len() {
                Err(CliError::MissingValue)
            } else {
                match number(argv[i + 1]) {
                    Some(v) => scan(argv, CliView { tp: v, ..s }, i + 2),
                    None => Err(CliError::Devices),
                }
            }
        } else if begins(a, "--tp="@) {
            match number(behind(a, 5)) {
                Some(v) => scan(argv, CliView { tp: v, ..s }, i + 1),
                None => Err(CliError::Devices),
            }
        } else if a == "--block"@ {
            if i + 1 >= argv.len() {
                Err(CliError::MissingValue)
            } else {
                scan(argv, CliView { block: Some(argv[i + 1]), ..s }, i + 2)
            }
        } else if begins(a, "--block="@) {
            scan(argv, CliView { block: Some(behind(a, 8)), ..s }, i + 1)
        } else if a == "--embed-cubin"@ {
            if i + 1 >= argv.len() {
                Err(CliError::MissingValue)
            } else {
                scan(argv, CliView { cubin: Some(argv[i + 1]), ..s }, i + 2)
            }
        } else if begins(a, "--embed-cubin="@) {
            scan(argv, CliView { cubin: Some(behind(a, 14)), ..s }, i + 1)
        } else if a == "--embed-hsaco"@ {
            if i + 1 >= argv.len() {
                Err(CliError::MissingValue)
            } else {
                scan(argv, CliView { hsaco: Some(argv[i + 1]), ..s }, i + 2)
            }
        } else if begins(a, "--embed-hsaco="@) {
            scan(argv, CliView { hsaco: Some(behind(a, 14)), ..s }, i + 1)
        } else {
            scan(argv, CliView { pos: s.pos.push(a), ..s }, i + 1)
        }
    }
}

/// What a command line gives before any argument is read: one device, and the layers that the
/// environment names.
pub open spec fn nothing_read(env_block: Option<Seq<char>>) -> CliView {
    CliView {
        tp: 1,
        block: match env_block {
            Some(s) => if s.len() > 0 { Some(s) } else { None },
            None => None,
        },
        cubin: None,
        hsaco: None,
        pos: Seq::empty(),
    }
}

/// Whether `a` is what the options and positions `s` ask for: the positions are the model
/// directory, the context length, the output file and the number of compute units.
pub open spec fn args_match(a: EmitArgs, s: CliView) -> bool {
    &&& s.pos.len() >= 2
    &&& a.dir@ == s.pos[0]
    &&& number(s.pos[1]) == Some(a.ctx)
    &&& a.out@ == (if s.pos.len() >= 3 { s.pos[2] } else { "gemma4.pkt"@ })
    &&& a.n_cu == (if s.pos.len() >= 4 {
        match number(s.pos[3]) {
            Some(v) => v,
            None => 256,
        }
    } else {
        256
    })
    &&& a.tp == s.tp
    &&& opt_text(a.block_spec) == s.block
    &&& opt_text(a.embed_cubin) == s.cubin
    &&& opt_text(a.embed_hsaco) == s.hsaco
    &&& a.rope_gen
    &&& a.l2_layout is None
    &&& a.emit_cfg is None
    &&& a.gpu@ == Seq::<char>::empty()
    &&& a.arch@ == Seq::<char>::empty()
    &&& a.whole_graph_fusions.tp == 0
    &&& a.whole_graph_fusions.parallel_linear2@.len() == 0
}

struct Cli {
    tp: u32,
    block: Option<String>,
    cubin: Option<String>,
    hsaco: Option<String>,
    pos: Vec<String>,
}

impl Cli {
    spec fn value(self) -> CliView {
        CliView {
            tp: self.tp,
            block: opt_text(self.block),
            cubin: opt_text(self.cubin),
            hsaco: opt_text(self.hsaco),
            pos: texts(self.pos@),
        }
    }
}

fn tail(s: &str, n: usize) -> (r: String)
    requires
        n <= s@.len(),
    ensures
        r@ == behind(s@, n as int),
{
    let len: usize = s.unicode_len();
    text(s.substring_char(n, len))
}

fn copy_at(argv: &Vec<String>, i: usize) -> (r: Option<String>)
    ensures
        match r {
            Some(s) => i < argv@.len() && s@ == argv@[i as int]@,
            None => i >= argv@.len(),
        },
{
    if i < argv.len() {
        Some(argv[i].clone())
    } else {
        None
    }
}

/// How an argument is read: with how many arguments, or why not.
fn read_one(argv: &Vec<String>, i: usize, c: Cli) -> (r: Result<(Cli, usize), CliError>)
    requires
        i < argv@.len(),
    ensures
        match r {
            Ok((d, n)) => {
                &&& 1 <= n <= 2
                &&& i + n <= argv@.len()
                &&& scan(texts(argv@), c.value(), i as int) == scan(
                    texts(argv@),
                    d.value(),
                    i + n,
                )
            },
            Err(e) => scan(texts(argv@), c.value(), i as int) == Err::<CliView, CliError>(e),
        },
{
    proof {
        reveal_strlit("--tp=");
        reveal_strlit("--block=");
        reveal_strlit("--embed-cubin=");
        reveal_strlit("--embed-hsaco=");
    }
    let ghost av = texts(argv@);
    let ghost before = c.value();
    let mut c = c;
    let _n: usize = argv.len();
    let a: &str = argv[i].as_str();
    proof {
        assert(av[i as int] == a@);
    }
    if same_text(a, "--tp") {
        match copy_at(argv, i + 1) {
            None => Err(CliError::MissingValue),
            Some(v) => match parse_u32(v.as_str()) {
                None => Err(CliError::Devices),
                Some(n) => {
                    c.tp = n;
                    proof {
                        assert(av[i + 1] == v@);
                        assert(c.value() == CliView { tp: n, ..before });
                    }
                    Ok((c, 2))
                },
            },
        }
    } else if starts_with(a, "--tp=") {
        match parse_u32(tail(a, 5).as_str()) {
            None => Err(CliError::Devices),
            Some(n) => {
                c.tp = n;
                proof {
                    assert(c.value() == CliView { tp: n, ..before });
                }
                Ok((c, 1))
            },
        }
    } else if same_text(a, "--block") {
        match copy_at(argv, i + 1) {
            None => Err(CliError::MissingValue),
            Some(v) => {
                let ghost vv = v@;
                c.block = Some(v);
                proof {
                    assert(av[i + 1] == vv);
                    assert(c.value() == CliView { block: Some(vv), ..before });
                }
                Ok((c, 2))
            },
        }
    } else if starts_with(a, "--block=") {
        c.block = Some(tail(a, 8));
        proof {
            assert(c.value() == CliView { block: Some(behind(a@, 8)), ..before });
        }
        Ok((c, 1))
    } else if same_text(a, "--embed-cubin") {
        match copy_at(argv, i + 1) {
            None => Err(CliError::MissingValue),
            Some(v) => {
                let ghost vv = v@;
                c.cubin = Some(v);
                proof {
                    assert(av[i + 1] == vv);
                    assert(c.value() == CliView { cubin: Some(vv), ..before });
                }
                Ok((c, 2))
            },
        }
    } else if starts_with(a, "--embed-cubin=") {
        c.cubin = Some(tail(a, 14));
        proof {
            assert(c.value() == CliView { cubin: Some(behind(a@, 14)), ..before });
        }
        Ok((c, 1))
    } else if same_text(a, "--embed-hsaco") {
        match copy_at(argv, i + 1) {
            None => Err(CliError::MissingValue),
            Some(v) => {
                let ghost vv = v@;
                c.hsaco = Some(v);
                proof {
                    assert(av[i + 1] == vv);
                    assert(c.value() == CliView { hsaco: Some(vv), ..before });
                }
                Ok((c, 2))
            },
        }
    } else if starts_with(a, "--embed-hsaco=") {
        c.hsaco = Some(tail(a, 14));
        proof {
            assert(c.value() == CliView { hsaco: Some(behind(a@, 14)), ..before });
        }
        Ok((c, 1))
    } else {
        c.pos.push(text(a));
        proof {
            assert(texts(c.pos@) =~= before.pos.push(a@));
            assert(c.value() == CliView { pos: before.pos.push(a@), ..before });
        }
        Ok((c, 1))
    }
}

impl EmitArgs {
    /// Reads a command line, without the program's name. `env_block` is what the environment names
    /// as the layers to emit.
    pub fn from_cli(argv: &Vec<String>, env_block: Option<String>) -> (r: Result<EmitArgs, CliError>)
        ensures
            ({
                let read = scan(texts(argv@), nothing_read(opt_text(env_block)), 0);
                match r {
                    Ok(a) => read is Ok && args_match(a, read->Ok_0),
                    Err(e) => match read {
                        Err(x) => e == x,
                        Ok(s) => if s.pos.len() == 0 {
                            e == CliError::NoDir
                        } else {
                            e == CliError::Context && (s.pos.len() == 1 || number(s.pos[1]) is None)
                        },
                    },
                }
            }),
    {
        let block: Option<String> = match env_block {
            Some(s) => if s.as_str().unicode_len() > 0 { Some(s) } else { None },
            None => None,
        };
        let mut c = Cli { tp: 1, block, cubin: None, hsaco: None, pos: Vec::new() };
        let ghost av = texts(argv@);
        let ghost start = nothing_read(opt_text(env_block));
        proof {
            assert(texts(c.pos@) =~= Seq::<Seq<char>>::empty());
            assert(c.value() == start);
        }
        let mut i: usize = 0;
        while i < argv.len()
            invariant
                i <= argv@.len(),
                av == texts(argv@),
                start == nothing_read(opt_text(env_block)),
                scan(av, start, 0) == scan(av, c.value(), i as int),
            decreases argv@.len() - i,
        {
            match read_one(argv, i, c) {
                Err(e) => {
                    return Err(e);
                },
                Ok((d, n)) => {
                    c = d;
                    i = i + n;
                },
            }
        }
        let ghost done = c.value();
        proof {
            assert(scan(av, start, 0) == Ok::<CliView, CliError>(done));
        }
        let Cli { tp, block, cubin, hsaco, pos } = c;
        let dir: String = match copy_at(&pos, 0) {
            Some(s) => s,
            None => {
                return Err(CliError::NoDir);
            },
        };
        let ctx: u32 = match copy_at(&pos, 1) {
            Some(s) => match parse_u32(s.as_str()) {
                Some(v) => v,
                None => {
                    return Err(CliError::Context);
                },
            },
            None => {
                return Err(CliError::Context);
            },
        };
        let out: String = match copy_at(&pos, 2) {
            Some(s) => s,
            None => text("gemma4.pkt"),
        };
        let n_cu: u32 = match copy_at(&pos, 3) {
            Some(s) => match parse_u32(s.as_str()) {
                Some(v) => v,
                None => 256,
            },
            None => 256,
        };
        Ok(
            EmitArgs {
                dir,
                ctx,
                out,
                n_cu,
                tp,
                block_spec: block,
                embed_cubin: cubin,
                embed_hsaco: hsaco,
                rope_gen: true,
                l2_layout: None,
                gpu: String::new(),
                arch: String::new(),
                emit_cfg: None,
                whole_graph_fusions: WholeGraphFusionDecisions::none(),
            },
        )
    }
}

} // verus!
