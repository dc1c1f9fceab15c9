//! The help command: the list of commands, and the usage of one command or
//! subcommand.
use vstd::prelude::*;
use crate::text::{
    append, append_str, eq_exec, from_chars, join, join_exec, replace, replace_str, split_whitespace,
    to_chars, trim, trim_exec, trim_start_str, trim_start_str_exec, vv, words,
};
use crate::git_diff::opt_view;

verus! {

/// A parameter of a command, as the help text shows it.
pub struct ParamInfo {
    pub name: String,
    pub required: bool,
    pub description: Option<String>,
}

/// A command, as the help text shows it.
pub struct CommandInfo {
    pub name: String,
    pub description: Option<String>,
    pub hide_in_help: bool,
    pub parameters: Vec<ParamInfo>,
    pub subcommands: Vec<CommandInfo>,
}

pub open spec fn or_empty(o: Option<String>) -> Seq<char> {
    match o {
        Some(s) => s@,
        None => seq![],
    }
}

/// `<name>` for a required parameter, `[name]` for an optional one.
pub open spec fn param_token(p: ParamInfo) -> Seq<char> {
    if p.required {
        "<"@ + p.name@ + ">"@
    } else {
        "["@ + p.name@ + "]"@
    }
}

/// A command's parameters as they are typed.
pub open spec fn signature_spec(ps: Seq<ParamInfo>) -> Seq<char> {
    join(ps.map_values(|p: ParamInfo| param_token(p)), " "@)
}

pub open spec fn argument_lines(ps: Seq<ParamInfo>) -> Seq<char>
    decreases ps.len(),
{
    if ps.len() == 0 {
        seq![]
    } else {
        let p = ps.last();
        argument_lines(ps.drop_last()) + "\n- `"@ + p.name@ + "` ("@ + (if p.required {
            "required"@
        } else {
            "optional"@
        }) + ") - "@ + or_empty(p.description)
    }
}

/// The list of a command's parameters, one per line, when it has any.
pub open spec fn arguments_spec(ps: Seq<ParamInfo>) -> Seq<char> {
    if ps.len() == 0 {
        seq![]
    } else {
        "\n**Arguments:**"@ + argument_lines(ps)
    }
}

pub(crate) fn param_signature(ps: &Vec<ParamInfo>) -> (r: Vec<char>)
    ensures
        r@ == signature_spec(ps@),
{
    let mut toks: Vec<Vec<char>> = Vec::new();
    let mut i: usize = 0;
    while i < ps.len()
        invariant
            i <= ps@.len(),
            vv(toks@) == ps@.take(i as int).map_values(|p: ParamInfo| param_token(p)),
        decreases ps@.len() - i,
    {
        let p = &ps[i];
        let mut t = if p.required { to_chars("<") } else { to_chars("[") };
        append_str(&mut t, p.name.as_str());
        if p.required {
            append_str(&mut t, ">");
        } else {
            append_str(&mut t, "]");
        }
        let ghost before = toks@;
        toks.push(t);
        proof {
            crate::text::lemma_vv_push(before, t);
        }
        assert(ps@.take(i + 1) =~= ps@.take(i as int).push(ps@[i as int]));
        assert(vv(toks@) =~= ps@.take(i + 1).map_values(|p: ParamInfo| param_token(p)));
        i += 1;
    }
    assert(ps@.take(ps@.len() as int) =~= ps@);
    let sp = to_chars(" ");
    join_exec(toks.as_slice(), sp.as_slice())
}

fn append_arguments(body: &mut Vec<char>, ps: &Vec<ParamInfo>)
    ensures
        final(body)@ == old(body)@ + arguments_spec(ps@),
{
    if ps.len() == 0 {
        assert(old(body)@ + arguments_spec(ps@) =~= old(body)@);
        return;
    }
    let ghost start = body@;
    append_str(body, "\n**Arguments:**");
    let ghost head = body@;
    let mut i: usize = 0;
    while i < ps.len()
        invariant
            i <= ps@.len(),
            head == start + "\n**Arguments:**"@,
            body@ == head + argument_lines(ps@.take(i as int)),
        decreases ps@.len() - i,
    {
        let p = &ps[i];
        let ghost before = body@;
        append_str(body, "\n- `");
        append_str(body, p.name.as_str());
        append_str(body, "` (");
        if p.required {
            append_str(body, "required");
        } else {
            append_str(body, "optional");
        }
        append_str(body, ") - ");
        match &p.description {
            Some(d) => append_str(body, d.as_str()),
            None => {},
        }
        assert(ps@.take(i + 1).drop_last() =~= ps@.take(i as int));
        assert(ps@.take(i + 1).last() == *p);
        assert(body@ =~= head + argument_lines(ps@.take(i + 1)));
        i += 1;
    }
    assert(ps@.take(ps@.len() as int) =~= ps@);
}

/// The index of the first command named `name`.
pub open spec fn find_named(cs: Seq<CommandInfo>, name: Seq<char>) -> Option<int>
    decreases cs.len(),
{
    if cs.len() == 0 {
        None
    } else if cs[0].name@ == name {
        Some(0)
    } else {
        match find_named(cs.drop_first(), name) {
            Some(i) => Some(i + 1),
            None => None,
        }
    }
}

/// The first subcommand named `name`, by the first command that has one:
/// the two indices.
pub open spec fn find_sub(cs: Seq<CommandInfo>, name: Seq<char>) -> Option<(int, int)>
    decreases cs.len(),
{
    if cs.len() == 0 {
        None
    } else {
        match find_named(cs[0].subcommands@, name) {
            Some(j) => Some((0, j)),
            None => match find_sub(cs.drop_first(), name) {
                Some((i, j)) => Some((i + 1, j)),
                None => None,
            },
        }
    }
}

pub proof fn lemma_find_named(cs: Seq<CommandInfo>, name: Seq<char>)
    ensures
        match find_named(cs, name) {
            Some(i) => 0 <= i < cs.len() && cs[i].name@ == name && forall|j: int| 0 <= j < i ==> cs[j].name@ != name,
            None => forall|j: int| 0 <= j < cs.len() ==> cs[j].name@ != name,
        },
    decreases cs.len(),
{
    if cs.len() > 0 && cs[0].name@ != name {
        lemma_find_named(cs.drop_first(), name);
        assert forall|j: int| 0 < j < cs.len() implies cs[j].name@ == cs.drop_first()[j - 1].name@ by {}
    }
}

fn find_named_exec(cs: &Vec<CommandInfo>, name: &[char]) -> (r: Option<usize>)
    ensures
        match r {
            Some(i) => find_named(cs@, name@) == Some(i as int) && i < cs@.len(),
            None => find_named(cs@, name@) is None,
        },
{
    proof {
        lemma_find_named(cs@, name@);
    }
    let mut i: usize = 0;
    while i < cs.len()
        invariant
            i <= cs@.len(),
            forall|j: int| 0 <= j < i ==> cs@[j].name@ != name@,
            match find_named(cs@, name@) {
                Some(k) => 0 <= k < cs@.len() && cs@[k].name@ == name@ && forall|j: int| 0 <= j < k ==> cs@[j].name@ != name@,
                None => forall|j: int| 0 <= j < cs@.len() ==> cs@[j].name@ != name@,
            },
        decreases cs@.len() - i,
    {
        if eq_exec(to_chars(cs[i].name.as_str()).as_slice(), name) {
            return Some(i);
        }
        i += 1;
    }
    None
}

fn find_sub_exec(cs: &Vec<CommandInfo>, name: &[char]) -> (r: Option<(usize, usize)>)
    ensures
        match r {
            Some((i, j)) => find_sub(cs@, name@) == Some((i as int, j as int)),
            None => find_sub(cs@, name@) is None,
        },
{
    let mut i: usize = 0;
    assert(cs@.skip(0) =~= cs@);
    while i < cs.len()
        invariant
            i <= cs@.len(),
            find_sub(cs@, name@) == match find_sub(cs@.skip(i as int), name@) {
                Some((a, b)) => Some((a + i, b)),
                None => None,
            },
        decreases cs@.len() - i,
    {
        assert(cs@.skip(i as int)[0] == cs@[i as int]);
        assert(cs@.skip(i as int).drop_first() =~= cs@.skip(i + 1));
        if let Some(j) = find_named_exec(&cs[i].subcommands, name) {
            return Some((i, j));
        }
        i += 1;
    }
    assert(cs@.skip(i as int) =~= Seq::<CommandInfo>::empty());
    None
}

/// The command a help query names, with its full name: one word is a
/// command, or else the first subcommand of that name; two or more words
/// are a command and its subcommand.
pub open spec fn resolve_spec(cs: Seq<CommandInfo>, tokens: Seq<Seq<char>>) -> Option<(Seq<char>, CommandInfo)> {
    if tokens.len() == 0 {
        None
    } else if tokens.len() == 1 {
        match find_named(cs, tokens[0]) {
            Some(i) => Some((cs[i].name@, cs[i])),
            None => match find_sub(cs, tokens[0]) {
                Some((i, j)) => Some((cs[i].name@ + " "@ + cs[i].subcommands@[j].name@, cs[i].subcommands@[j])),
                None => None,
            },
        }
    } else {
        match find_named(cs, tokens[0]) {
            Some(i) => match find_named(cs[i].subcommands@, tokens[1]) {
                Some(j) => Some((tokens[0] + " "@ + tokens[1], cs[i].subcommands@[j])),
                None => None,
            },
            None => None,
        }
    }
}

/// One subcommand's line, with its arguments indented below it.
pub open spec fn sub_line(prefix: Seq<char>, full: Seq<char>, s: CommandInfo) -> Seq<char> {
    let sig = signature_spec(s.parameters@);
    "\n- `"@ + prefix + full + " "@ + s.name@ + (if sig.len() == 0 {
        seq![]
    } else {
        " "@ + sig
    }) + "` - "@ + or_empty(s.description) + replace(arguments_spec(s.parameters@), "\n"@, "\n  "@)
}

pub open spec fn sub_lines(prefix: Seq<char>, full: Seq<char>, subs: Seq<CommandInfo>) -> Seq<char>
    decreases subs.len(),
{
    if subs.len() == 0 {
        seq![]
    } else {
        sub_lines(prefix, full, subs.drop_last()) + sub_line(prefix, full, subs.last())
    }
}

fn sub_line_exec(prefix: &str, full: &[char], s: &CommandInfo) -> (r: Vec<char>)
    ensures
        r@ == sub_line(prefix@, full@, *s),
{
    let sig = param_signature(&s.parameters);
    let mut body = to_chars("\n- `");
    append_str(&mut body, prefix);
    append(&mut body, full);
    append_str(&mut body, " ");
    append_str(&mut body, s.name.as_str());
    if sig.len() > 0 {
        append_str(&mut body, " ");
        append(&mut body, sig.as_slice());
    }
    append_str(&mut body, "` - ");
    match &s.description {
        Some(d) => append_str(&mut body, d.as_str()),
        None => {},
    }
    let mut block: Vec<char> = Vec::new();
    append_arguments(&mut block, &s.parameters);
    proof {
        reveal_strlit("\n");
    }
    let indented = replace_str(block.as_slice(), "\n", "\n  ");
    append(&mut body, indented.as_slice());
    assert(block@ =~= arguments_spec(s.parameters@));
    body
}

/// The help of one command: its description, usage and arguments, and its
/// subcommands with theirs.
pub open spec fn command_help_spec(prefix: Seq<char>, full: Seq<char>, c: CommandInfo) -> Seq<char> {
    let desc = match c.description {
        Some(d) => d@,
        None => "(no description)"@,
    };
    "**"@ + prefix + full + "** - "@ + desc + usage_spec(prefix, full, c) + subs_spec(prefix, full, c)
}

pub open spec fn list_lines(prefix: Seq<char>, cs: Seq<CommandInfo>) -> Seq<char>
    decreases cs.len(),
{
    if cs.len() == 0 {
        seq![]
    } else {
        let c = cs.last();
        list_lines(prefix, cs.drop_last()) + if c.hide_in_help {
            seq![]
        } else {
            "\n- `"@ + prefix + c.name@ + "` - "@ + or_empty(c.description)
        }
    }
}

/// The text of the help command: the visible commands, or the help of the
/// command the query names (after any prefix and `/`), or that it was not
/// found.
pub open spec fn help_spec(prefix: Seq<char>, cs: Seq<CommandInfo>, query: Option<Seq<char>>) -> Seq<char> {
    match query {
        None => "**Commands:**"@ + list_lines(prefix, cs) + "\n\nUse `"@ + prefix
            + "help <command>` for details on a specific command."@,
        Some(q) => {
            let target = trim_start_str(trim_start_str(trim(q), prefix), "/"@);
            match resolve_spec(cs, words(target)) {
                Some((full, c)) => command_help_spec(prefix, full, c),
                None => "Command `"@ + target + "` not found."@,
            }
        },
    }
}

/// The usage part of a command's help (empty without parameters).
pub open spec fn usage_spec(prefix: Seq<char>, full: Seq<char>, c: CommandInfo) -> Seq<char> {
    if c.parameters@.len() == 0 {
        seq![]
    } else {
        "\n\n**Usage:** `"@ + prefix + full + " "@ + signature_spec(c.parameters@) + "`\n"@ + arguments_spec(
            c.parameters@,
        )
    }
}

/// The subcommand part of a command's help (empty without subcommands).
pub open spec fn subs_spec(prefix: Seq<char>, full: Seq<char>, c: CommandInfo) -> Seq<char> {
    if c.subcommands@.len() == 0 {
        seq![]
    } else {
        "\n\n**Subcommands:**"@ + sub_lines(prefix, full, c.subcommands@)
    }
}

fn append_usage(body: &mut Vec<char>, prefix: &str, full: &[char], c: &CommandInfo)
    ensures
        final(body)@ == old(body)@ + usage_spec(prefix@, full@, *c),
{
    if c.parameters.len() > 0 {
        append_str(body, "\n\n**Usage:** `");
        append_str(body, prefix);
        append(body, full);
        append_str(body, " ");
        append(body, param_signature(&c.parameters).as_slice());
        append_str(body, "`\n");
        append_arguments(body, &c.parameters);
    } else {
        assert(old(body)@ + usage_spec(prefix@, full@, *c) =~= old(body)@);
    }
}

fn append_subs(body: &mut Vec<char>, prefix: &str, full: &[char], c: &CommandInfo)
    ensures
        final(body)@ == old(body)@ + subs_spec(prefix@, full@, *c),
{
    if c.subcommands.len() > 0 {
        append_str(body, "\n\n**Subcommands:**");
        let ghost shead = body@;
        let mut i: usize = 0;
        assert(c.subcommands@.take(0) =~= Seq::<CommandInfo>::empty());
        assert(shead =~= shead + sub_lines(prefix@, full@, c.subcommands@.take(0)));
        while i < c.subcommands.len()
            invariant
                i <= c.subcommands@.len(),
                body@ == shead + sub_lines(prefix@, full@, c.subcommands@.take(i as int)),
            decreases c.subcommands@.len() - i,
        {
            let s = &c.subcommands[i];
            let line = sub_line_exec(prefix, full, s);
            append(body, line.as_slice());
            assert(c.subcommands@.take(i + 1).drop_last() =~= c.subcommands@.take(i as int));
            assert(c.subcommands@.take(i + 1).last() == *s);
            assert(body@ =~= shead + sub_lines(prefix@, full@, c.subcommands@.take(i + 1)));
            i += 1;
        }
        assert(c.subcommands@.take(c.subcommands@.len() as int) =~= c.subcommands@);
        assert(body@ =~= old(body)@ + subs_spec(prefix@, full@, *c));
    } else {
        assert(old(body)@ + subs_spec(prefix@, full@, *c) =~= old(body)@);
    }
}

fn command_help(prefix: &str, full: &[char], c: &CommandInfo) -> (r: Vec<char>)
    ensures
        r@ == command_help_spec(prefix@, full@, *c),
{
    let mut body = to_chars("**");
    append_str(&mut body, prefix);
    append(&mut body, full);
    append_str(&mut body, "** - ");
    match &c.description {
        Some(d) => append_str(&mut body, d.as_str()),
        None => append_str(&mut body, "(no description)"),
    }
    append_usage(&mut body, prefix, full, c);
    append_subs(&mut body, prefix, full, c);
    assert(body@ =~= command_help_spec(prefix@, full@, *c));
    body
}

/// The help command's text (see `help_spec`).
pub fn help_text(prefix: &str, commands: &Vec<CommandInfo>, query: Option<&str>) -> (r: String)
    ensures
        r@ == help_spec(prefix@, commands@, match query {
            Some(q) => Some(q@),
            None => None,
        }),
{
    match query {
        None => {
            let mut out = to_chars("**Commands:**");
            let ghost head = out@;
            let mut i: usize = 0;
            while i < commands.len()
                invariant
                    i <= commands@.len(),
                    head == "**Commands:**"@,
                    out@ == head + list_lines(prefix@, commands@.take(i as int)),
                decreases commands@.len() - i,
            {
                let c = &commands[i];
                assert(commands@.take(i + 1).drop_last() =~= commands@.take(i as int));
                assert(commands@.take(i + 1).last() == *c);
                let ghost before = out@;
                if !c.hide_in_help {
                    append_str(&mut out, "\n- `");
                    append_str(&mut out, prefix);
                    append_str(&mut out, c.name.as_str());
                    append_str(&mut out, "` - ");
                    match &c.description {
                        Some(d) => append_str(&mut out, d.as_str()),
                        None => {},
                    }
                }
                assert(out@ =~= head + list_lines(prefix@, commands@.take(i + 1)));
                i += 1;
            }
            assert(commands@.take(commands@.len() as int) =~= commands@);
            append_str(&mut out, "\n\nUse `");
            append_str(&mut out, prefix);
            append_str(&mut out, "help <command>` for details on a specific command.");
            from_chars(out.as_slice())
        },
        Some(q) => {
            let qc = to_chars(q);
            let pc = to_chars(prefix);
            let slash = to_chars("/");
            let target = trim_start_str_exec(trim_start_str_exec(trim_exec(qc.as_slice()), pc.as_slice()), slash.as_slice());
            let tokens = split_whitespace(target);
            let resolved: Option<(Vec<char>, &CommandInfo)> = if tokens.len() == 0 {
                None
            } else if tokens.len() == 1 {
                match find_named_exec(commands, tokens[0].as_slice()) {
                    Some(i) => Some((to_chars(commands[i].name.as_str()), &commands[i])),
                    None => match find_sub_exec(commands, tokens[0].as_slice()) {
                        Some((i, j)) => {
                            proof {
                                lemma_find_sub_bounds(commands@, tokens@[0]@);
                            }
                            let mut full = to_chars(commands[i].name.as_str());
                            append_str(&mut full, " ");
                            append_str(&mut full, commands[i].subcommands[j].name.as_str());
                            Some((full, &commands[i].subcommands[j]))
                        },
                        None => None,
                    },
                }
            } else {
                match find_named_exec(commands, tokens[0].as_slice()) {
                    Some(i) => {
                        proof {
                            lemma_find_named(commands@, tokens@[0]@);
                        }
                        match find_named_exec(&commands[i].subcommands, tokens[1].as_slice()) {
                            Some(j) => {
                                proof {
                                    lemma_find_named(commands@[i as int].subcommands@, tokens@[1]@);
                                }
                                let mut full = vstd::slice::slice_to_vec(tokens[0].as_slice());
                                append_str(&mut full, " ");
                                append(&mut full, tokens[1].as_slice());
                                Some((full, &commands[i].subcommands[j]))
                            },
                            None => None,
                        }
                    },
                    None => None,
                }
            };
            proof {
                lemma_find_named(commands@, target@);
            }
            match resolved {
                Some((full, c)) => from_chars(command_help(prefix, full.as_slice(), c).as_slice()),
                None => {
                    let mut out = to_chars("Command `");
                    append(&mut out, target);
                    append_str(&mut out, "` not found.");
                    from_chars(out.as_slice())
                },
            }
        },
    }
}

pub proof fn lemma_find_sub_bounds(cs: Seq<CommandInfo>, name: Seq<char>)
    ensures
        find_sub(cs, name) matches Some((i, j)) ==> 0 <= i < cs.len() && 0 <= j < cs[i].subcommands@.len(),
    decreases cs.len(),
{
    if cs.len() > 0 {
        lemma_find_named(cs[0].subcommands@, name);
        lemma_find_sub_bounds(cs.drop_first(), name);
    }
}

} // verus!
