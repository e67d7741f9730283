//! Recognising coding agents by the command line of the foreground process.
//!
//! Known gap: the program and the package of [`SessionActivityAgent::ClaudeCode`] are missing here, so
//! that agent counts as some other process.

use crate::pty::activity::{ForegroundProcess, SessionActivityAgent};
use crate::text::{
    ascii_tokens, byte_views, bytes_spell, char_views, keep_non_empty, non_empty_pieces, occurs_at,
    split_bytes, split_on, split_tokens, str_chars,
};
use vstd::prelude::*;
use vstd::utf8::encode_utf8;

verus! {

// ---------------------------------------------------------------------------
// Process table entries

/// The value of a decimal number, if every character is a digit and there is at least one.
pub open spec fn digits_value(s: Seq<char>) -> Option<nat>
    decreases s.len(),
{
    if s.len() == 0 {
        None
    } else if !('0' <= s.last() && s.last() <= '9') {
        None
    } else {
        let digit = ((s.last() as u32) - ('0' as u32)) as nat;
        if s.len() == 1 {
            Some(digit)
        } else {
            match digits_value(s.drop_last()) {
                Some(value) => Some(10 * value + digit),
                None => None,
            }
        }
    }
}

/// A number as a process group, if it is one.
pub open spec fn group_id(value: Option<nat>) -> Option<u32> {
    match value {
        Some(value) => if 0 < value && value <= i32::MAX {
            Some(value as u32)
        } else {
            None
        },
        None => None,
    }
}

/// The positive process group that a token denotes, if it does.
pub open spec fn positive_pid(token: Seq<char>) -> Option<u32> {
    group_id(
        digits_value(
            if token.len() > 0 && token[0] == '+' {
                token.drop_first()
            } else {
                token
            },
        ),
    )
}

/// The position of the last end of a command name in a process table entry.
pub open spec fn is_last_name_end(stat: Seq<char>, i: int) -> bool {
    &&& occurs_at(stat, seq![')', ' '], i)
    &&& forall|j: int| i < j ==> !occurs_at(stat, seq![')', ' '], j)
}

/// The foreground process group in a process table entry: the sixth field after the command name,
/// which may itself contain spaces and brackets.
pub open spec fn foreground_group(stat: Seq<char>) -> Option<u32> {
    if exists|i: int| is_last_name_end(stat, i) {
        let i = choose|i: int| is_last_name_end(stat, i);
        let fields = ascii_tokens(stat.skip(i + 2));
        if fields.len() > 5 {
            positive_pid(fields[5])
        } else {
            None
        }
    } else {
        None
    }
}

fn parse_positive_pid(token: &Vec<char>) -> (pid: Option<u32>)
    ensures
        pid == positive_pid(token@),
{
    let start: usize = if token.len() > 0 && token[0] == '+' {
        1
    } else {
        0
    };
    let ghost digits = if token@.len() > 0 && token@[0] == '+' {
        token@.drop_first()
    } else {
        token@
    };
    assert(digits =~= token@.skip(start as int));
    if start == token.len() {
        return None;
    }
    let mut value: u64 = 0;
    let mut too_large: bool = false;
    let mut i: usize = start;
    while i < token.len()
        invariant
            start <= i <= token@.len(),
            start < token@.len(),
            digits == token@.skip(start as int),
            positive_pid(token@) == group_id(digits_value(digits)),
            value <= 0x7fff_ffff,
            i > start ==> digits_value(digits.take(i - start)) is Some,
            i > start && !too_large ==> digits_value(digits.take(i - start)) == Some(value as nat),
            i > start && too_large ==> digits_value(digits.take(i - start))->0 > i32::MAX,
            i == start ==> value == 0 && !too_large,
        decreases token@.len() - i,
    {
        let c: char = token[i];
        let ghost part = digits.take(i + 1 - start);
        assert(part.drop_last() =~= digits.take(i - start));
        assert(part.last() == c);
        if !('0' <= c && c <= '9') {
            proof {
                lemma_not_digits(digits, i - start);
            }
            return None;
        }
        let digit: u64 = (c as u32 - '0' as u32) as u64;
        if too_large || value > 214748364 {
            too_large = true;
        } else {
            value = 10 * value + digit;
            if value > 2147483647 {
                too_large = true;
                value = 0;
            }
        }
        i = i + 1;
    }
    assert(digits.take(i - start) =~= digits);
    if too_large || value == 0 {
        None
    } else {
        Some(value as u32)
    }
}

proof fn lemma_not_digits(s: Seq<char>, k: int)
    requires
        0 <= k < s.len(),
        !('0' <= s[k] && s[k] <= '9'),
    ensures
        digits_value(s) is None,
    decreases s.len(),
{
    if k < s.len() - 1 {
        assert(s.drop_last()[k] == s[k]);
        lemma_not_digits(s.drop_last(), k);
    }
}

/// Reads the foreground process group out of a process table entry.
pub fn parse_linux_tpgid(stat: &str) -> (pid: Option<u32>)
    ensures
        pid == foreground_group(stat@),
{
    let chars = str_chars(stat);
    let ghost mark = seq![')', ' '];
    let mut i: usize = chars.len();
    while i > 0
        invariant
            i <= chars@.len(),
            chars@ == stat@,
            mark == seq![')', ' '],
            forall|j: int| i <= j ==> !occurs_at(stat@, mark, j),
        decreases i,
    {
        i = i - 1;
        if i + 1 < chars.len() && chars[i] == ')' && chars[i + 1] == ' ' {
            assert(stat@.subrange(i as int, i + 2) =~= mark);
            assert(is_last_name_end(stat@, i as int));
            proof {
                let chosen = choose|k: int| is_last_name_end(stat@, k);
                assert(is_last_name_end(stat@, chosen));
                if chosen < i {
                    assert(!occurs_at(stat@, mark, i as int));
                } else if i < chosen {
                    assert(!occurs_at(stat@, mark, chosen));
                }
                assert(chosen == i);
            }
            let rest = vstd::slice::slice_subrange(chars.as_slice(), i + 2, chars.len());
            assert(rest@ =~= stat@.skip(i + 2));
            let fields = split_tokens(rest);
            if fields.len() > 5 {
                assert(char_views(fields@)[5] == fields@[5]@);
                return parse_positive_pid(&fields[5]);
            }
            return None;
        }
        assert(!occurs_at(stat@, mark, i as int)) by {
            if occurs_at(stat@, mark, i as int) {
                assert(stat@.subrange(i as int, i + 2)[0] == mark[0]);
                assert(stat@.subrange(i as int, i + 2)[1] == mark[1]);
            }
        }
    }
    assert(!exists|k: int| is_last_name_end(stat@, k));
    None
}

// ---------------------------------------------------------------------------
// Command lines

/// The last piece of a path that is not empty.
pub open spec fn last_non_empty(pieces: Seq<Seq<u8>>) -> Option<Seq<u8>>
    decreases pieces.len(),
{
    if pieces.len() == 0 {
        None
    } else if pieces.last().len() > 0 {
        Some(pieces.last())
    } else {
        last_non_empty(pieces.drop_last())
    }
}

/// The file name at the end of a path.
pub open spec fn file_name(path: Seq<u8>) -> Option<Seq<u8>> {
    last_non_empty(split_on(path, 0x2f))
}

/// A path has a component.
pub open spec fn has_component(path: Seq<u8>, name: Seq<char>) -> bool {
    split_on(path, 0x2f).contains(encode_utf8(name))
}

/// A path has two adjacent components.
pub open spec fn has_scoped_package(path: Seq<u8>, scope: Seq<char>, package: Seq<char>) -> bool {
    exists|i: int|
        #![trigger split_on(path, 0x2f)[i]]
        0 <= i && i + 1 < split_on(path, 0x2f).len() && split_on(path, 0x2f)[i] == encode_utf8(scope)
            && split_on(path, 0x2f)[i + 1] == encode_utf8(package)
}

/// The agent whose program has a name.
pub open spec fn named_agent(name: Seq<u8>) -> Option<SessionActivityAgent> {
    if name == encode_utf8("codex"@) {
        Some(SessionActivityAgent::Codex)
    } else if name == encode_utf8("opencode"@) {
        Some(SessionActivityAgent::OpenCode)
    } else if name == encode_utf8("zcode"@) || name == encode_utf8("zcode-cli"@) {
        Some(SessionActivityAgent::ZCode)
    } else {
        None
    }
}

/// The agent that a script belongs to, by its name and the package that it lies in.
pub open spec fn script_agent(script: Seq<u8>) -> Option<SessionActivityAgent> {
    match file_name(script) {
        None => None,
        Some(name) => if named_agent(name) is Some {
            named_agent(name)
        } else if name == encode_utf8("codex.js"@) && has_scoped_package(
            script,
            "@openai"@,
            "codex"@,
        ) {
            Some(SessionActivityAgent::Codex)
        } else if (name == encode_utf8("cli.js"@) || name == encode_utf8("index.js"@) || name
            == encode_utf8("opencode.js"@)) && (has_component(script, "opencode-ai"@)
            || has_component(script, "opencode"@)) {
            Some(SessionActivityAgent::OpenCode)
        } else if (name == encode_utf8("cli.js"@) || name == encode_utf8("index.js"@) || name
            == encode_utf8("zcode.js"@) || name == encode_utf8("zcode-cli.js"@)) && (has_component(
            script,
            "zcode"@,
        ) || has_component(script, "zcode-cli"@)) {
            Some(SessionActivityAgent::ZCode)
        } else {
            None
        },
    }
}

/// The arguments that are not options.
pub open spec fn operands(args: Seq<Seq<u8>>) -> Seq<Seq<u8>>
    decreases args.len(),
{
    if args.len() == 0 {
        Seq::empty()
    } else {
        let rest = operands(args.drop_last());
        if args.last().len() > 0 && args.last()[0] == 0x2d {
            rest
        } else {
            rest.push(args.last())
        }
    }
}

/// A program is a JavaScript runtime.
pub open spec fn is_runtime(name: Seq<u8>) -> bool {
    name == encode_utf8("node"@) || name == encode_utf8("nodejs"@) || is_bun(name)
}

/// A program is Bun, whose first operand may be a subcommand.
pub open spec fn is_bun(name: Seq<u8>) -> bool {
    name == encode_utf8("bun"@) || name == encode_utf8("bunx"@)
}

/// An operand is a subcommand that runs a script.
pub open spec fn is_run_subcommand(operand: Seq<u8>) -> bool {
    operand == encode_utf8("run"@) || operand == encode_utf8("x"@) || operand == encode_utf8("exec"@)
}

/// The agent that a command line runs, directly or as a script of a JavaScript runtime.
pub open spec fn cmdline_agent(cmdline: Seq<u8>) -> Option<SessionActivityAgent> {
    let args = non_empty_pieces(split_on(cmdline, 0));
    if args.len() == 0 {
        None
    } else {
        match file_name(args[0]) {
            None => None,
            Some(program) => if named_agent(program) is Some {
                named_agent(program)
            } else if !is_runtime(program) {
                None
            } else {
                let scripts = operands(args.drop_first());
                if scripts.len() == 0 {
                    None
                } else if is_bun(program) && is_run_subcommand(scripts[0]) {
                    if scripts.len() == 1 {
                        None
                    } else {
                        script_agent(scripts[1])
                    }
                } else {
                    script_agent(scripts[0])
                }
            },
        }
    }
}

/// The file name at the end of a path.
pub fn path_file_name(path: &[u8]) -> (name: Option<Vec<u8>>)
    ensures
        match name {
            Some(n) => file_name(path@) == Some(n@),
            None => file_name(path@) is None,
        },
{
    let mut parts = split_bytes(path, 0x2f);
    let ghost all = byte_views(parts@);
    loop
        invariant
            last_non_empty(byte_views(parts@)) == last_non_empty(all),
            all == split_on(path@, 0x2f),
        decreases parts@.len(),
    {
        let ghost before = byte_views(parts@);
        match parts.pop() {
            None => {
                return None;
            },
            Some(part) => {
                assert(before.last() == part@);
                assert(before.drop_last() =~= byte_views(parts@));
                if part.len() > 0 {
                    return Some(part);
                }
            },
        }
    }
}

/// Whether a path has a component.
pub fn path_has_component(path: &[u8], expected: &str) -> (found: bool)
    ensures
        found == has_component(path@, expected@),
{
    let parts = split_bytes(path, 0x2f);
    let mut i: usize = 0;
    while i < parts.len()
        invariant
            i <= parts@.len(),
            byte_views(parts@) == split_on(path@, 0x2f),
            forall|k: int|
                0 <= k < i ==> #[trigger] split_on(path@, 0x2f)[k] != encode_utf8(expected@),
        decreases parts@.len() - i,
    {
        assert(byte_views(parts@)[i as int] == parts@[i as int]@);
        if bytes_spell(parts[i].as_slice(), expected) {
            assert(split_on(path@, 0x2f)[i as int] == encode_utf8(expected@));
            return true;
        }
        i = i + 1;
    }
    false
}

/// Whether a path has two adjacent components.
pub fn path_has_scoped_package(path: &[u8], scope: &str, package: &str) -> (found: bool)
    ensures
        found == has_scoped_package(path@, scope@, package@),
{
    let parts = split_bytes(path, 0x2f);
    let ghost pieces = split_on(path@, 0x2f);
    let mut i: usize = 0;
    while i + 1 < parts.len()
        invariant
            parts@.len() > 0,
            i + 1 <= parts@.len(),
            parts.len() == parts@.len(),
            byte_views(parts@) == pieces,
            pieces == split_on(path@, 0x2f),
            forall|k: int|
                #![trigger pieces[k]]
                0 <= k < i ==> !(pieces[k] == encode_utf8(scope@) && pieces[k + 1] == encode_utf8(
                    package@,
                )),
        decreases parts@.len() - i,
    {
        assert(byte_views(parts@)[i as int] == parts@[i as int]@);
        assert(byte_views(parts@)[i + 1] == parts@[i + 1]@);
        if bytes_spell(parts[i].as_slice(), scope) && bytes_spell(parts[i + 1].as_slice(), package) {
            assert(split_on(path@, 0x2f)[i as int] == encode_utf8(scope@));
            return true;
        }
        i = i + 1;
    }
    false
}

/// The agent whose program has a name.
pub fn agent_for_executable_name(name: &[u8]) -> (agent: Option<SessionActivityAgent>)
    ensures
        agent == named_agent(name@),
{
    if bytes_spell(name, "codex") {
        Some(SessionActivityAgent::Codex)
    } else if bytes_spell(name, "opencode") {
        Some(SessionActivityAgent::OpenCode)
    } else if bytes_spell(name, "zcode") || bytes_spell(name, "zcode-cli") {
        Some(SessionActivityAgent::ZCode)
    } else {
        None
    }
}

/// The agent that a script belongs to.
pub fn agent_for_script_entrypoint(script: &[u8]) -> (agent: Option<SessionActivityAgent>)
    ensures
        agent == script_agent(script@),
{
    let name: Vec<u8> = match path_file_name(script) {
        Some(name) => name,
        None => {
            return None;
        },
    };
    let name = name.as_slice();
    if let Some(agent) = agent_for_executable_name(name) {
        return Some(agent);
    }
    if bytes_spell(name, "codex.js") && path_has_scoped_package(script, "@openai", "codex") {
        return Some(SessionActivityAgent::Codex);
    }
    if (bytes_spell(name, "cli.js") || bytes_spell(name, "index.js") || bytes_spell(
        name,
        "opencode.js",
    )) && (path_has_component(script, "opencode-ai") || path_has_component(script, "opencode")) {
        return Some(SessionActivityAgent::OpenCode);
    }
    if (bytes_spell(name, "cli.js") || bytes_spell(name, "index.js") || bytes_spell(
        name,
        "zcode.js",
    ) || bytes_spell(name, "zcode-cli.js")) && (path_has_component(script, "zcode")
        || path_has_component(script, "zcode-cli")) {
        return Some(SessionActivityAgent::ZCode);
    }
    None
}

fn keep_operands(parts: &Vec<Vec<u8>>, from: usize) -> (kept: Vec<Vec<u8>>)
    requires
        from <= parts@.len(),
    ensures
        byte_views(kept@) == operands(byte_views(parts@).skip(from as int)),
{
    let ghost all = byte_views(parts@).skip(from as int);
    let mut kept: Vec<Vec<u8>> = Vec::new();
    assert(byte_views(kept@) =~= Seq::<Seq<u8>>::empty());
    assert(all.take(0) =~= Seq::<Seq<u8>>::empty());
    let mut i: usize = from;
    while i < parts.len()
        invariant
            from <= i <= parts@.len(),
            all == byte_views(parts@).skip(from as int),
            byte_views(kept@) == operands(all.take(i - from)),
        decreases parts@.len() - i,
    {
        let ghost before = byte_views(kept@);
        assert(all.take(i + 1 - from).drop_last() =~= all.take(i - from));
        assert(all.take(i + 1 - from).last() == parts@[i as int]@);
        let is_option = parts[i].len() > 0 && parts[i][0] == 0x2d;
        if !is_option {
            let part = vstd::slice::slice_to_vec(parts[i].as_slice());
            let ghost model = part@;
            kept.push(part);
            assert(byte_views(kept@) =~= before.push(model));
        }
        i = i + 1;
    }
    assert(all.take(i - from) =~= all);
    kept
}

/// The agent that a command line runs. Arguments are separated by zero bytes.
pub fn agent_for_cmdline(cmdline: &[u8]) -> (agent: Option<SessionActivityAgent>)
    ensures
        agent == cmdline_agent(cmdline@),
{
    let args = keep_non_empty(split_bytes(cmdline, 0));
    if args.len() == 0 {
        return None;
    }
    assert(byte_views(args@)[0] == args@[0]@);
    let program: Vec<u8> = match path_file_name(args[0].as_slice()) {
        Some(name) => name,
        None => {
            return None;
        },
    };
    let program = program.as_slice();
    if let Some(agent) = agent_for_executable_name(program) {
        return Some(agent);
    }
    let bun = bytes_spell(program, "bun") || bytes_spell(program, "bunx");
    if !(bytes_spell(program, "node") || bytes_spell(program, "nodejs") || bun) {
        return None;
    }
    let scripts = keep_operands(&args, 1);
    assert(byte_views(args@).skip(1) =~= byte_views(args@).drop_first());
    if scripts.len() == 0 {
        return None;
    }
    assert(byte_views(scripts@)[0] == scripts@[0]@);
    let first = scripts[0].as_slice();
    if bun && (bytes_spell(first, "run") || bytes_spell(first, "x") || bytes_spell(first, "exec")) {
        if scripts.len() == 1 {
            return None;
        }
        assert(byte_views(scripts@)[1] == scripts@[1]@);
        return agent_for_script_entrypoint(scripts[1].as_slice());
    }
    agent_for_script_entrypoint(first)
}

/// A command line has something in it.
pub open spec fn has_content(cmdline: Seq<u8>) -> bool {
    exists|i: int| 0 <= i < cmdline.len() && #[trigger] cmdline[i] != 0
}

/// What the foreground process is, by its command line. One that cannot be seen is unknown.
pub open spec fn classified(cmdline: Seq<u8>) -> ForegroundProcess {
    match cmdline_agent(cmdline) {
        Some(agent) => ForegroundProcess::Agent(agent),
        None => if has_content(cmdline) {
            ForegroundProcess::Other
        } else {
            ForegroundProcess::Unknown
        },
    }
}

/// Classifies the foreground process by its command line.
pub fn foreground_process_for_cmdline(cmdline: &[u8]) -> (foreground: ForegroundProcess)
    ensures
        foreground == classified(cmdline@),
{
    if let Some(agent) = agent_for_cmdline(cmdline) {
        return ForegroundProcess::Agent(agent);
    }
    let mut i: usize = 0;
    while i < cmdline.len()
        invariant
            i <= cmdline@.len(),
            cmdline_agent(cmdline@) is None,
            forall|k: int| 0 <= k < i ==> #[trigger] cmdline@[k] == 0,
        decreases cmdline@.len() - i,
    {
        if cmdline[i] != 0 {
            return ForegroundProcess::Other;
        }
        i = i + 1;
    }
    ForegroundProcess::Unknown
}

} // verus!
