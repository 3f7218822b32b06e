//! Slash commands: a registry looked up by name or alias, and the parse of `/name args`.
use vstd::prelude::*;

use std::sync::Arc;

use crate::text::{is_whitespace, is_ws, owned, push_str, slice_chars, str_chars, string_from_chars, trim, trim_chars, trim_end_index, trim_start, trim_start_chars, trim_start_index};

verus! {

/// A command the user can type as `/name`.
pub struct SlashCommand<F> {
    pub name: String,
    pub description: String,
    pub func: F,
    pub aliases: Vec<String>,
}

/// The views of a list of strings.
pub open spec fn strings_view(v: Seq<String>) -> Seq<Seq<char>> {
    v.map_values(|s: String| s@)
}

/// Strings joined by a separator.
pub open spec fn join_spec(parts: Seq<Seq<char>>, sep: Seq<char>) -> Seq<char>
    decreases parts.len(),
{
    if parts.len() == 0 {
        Seq::empty()
    } else if parts.len() == 1 {
        parts[0]
    } else {
        join_spec(parts.drop_last(), sep) + sep + parts.last()
    }
}

/// How a command is listed: `/name`, or `/name (alias, alias)` when it has aliases.
pub open spec fn slash_name_spec(name: Seq<char>, aliases: Seq<Seq<char>>) -> Seq<char> {
    if aliases.len() == 0 {
        "/"@ + name
    } else {
        "/"@ + name + " ("@ + join_spec(aliases, ", "@) + ")"@
    }
}

/// `parts` joined by `sep`, appended to `out`.
pub(crate) fn push_joined(out: &mut String, parts: &Vec<String>, sep: &str)
    ensures
        final(out)@ == old(out)@ + join_spec(strings_view(parts@), sep@),
{
    let ghost o = out@;
    let mut i: usize = 0;
    while i < parts.len()
        invariant
            i <= parts@.len(),
            out@ == o + join_spec(strings_view(parts@).take(i as int), sep@),
        decreases parts@.len() - i,
    {
        if i > 0 {
            push_str(out, sep);
        }
        push_str(out, parts[i].as_str());
        proof {
            let t = strings_view(parts@).take(i + 1);
            assert(t.drop_last() =~= strings_view(parts@).take(i as int));
            if i == 0 {
                assert(strings_view(parts@).take(0) =~= Seq::<Seq<char>>::empty());
            }
        }
        i = i + 1;
    }
    assert(strings_view(parts@).take(parts@.len() as int) =~= strings_view(parts@));
}

impl<F> SlashCommand<F> {
    /// How the command is listed: `/name`, or `/name (alias, alias)`.
    pub fn slash_name(&self) -> (r: String)
        ensures
            r@ == slash_name_spec(self.name@, strings_view(self.aliases@)),
    {
        let mut s = owned("/");
        push_str(&mut s, self.name.as_str());
        if self.aliases.len() == 0 {
            return s;
        }
        push_str(&mut s, " (");
        push_joined(&mut s, &self.aliases, ", ");
        push_str(&mut s, ")");
        s
    }
}

/// What a command shows of itself: its name, description and aliases.
pub struct SlashCommandInfo {
    pub name: String,
    pub description: String,
    pub aliases: Vec<String>,
}

fn copy_strings(v: &Vec<String>) -> (r: Vec<String>)
    ensures
        strings_view(r@) == strings_view(v@),
{
    let mut out: Vec<String> = Vec::new();
    let mut i: usize = 0;
    while i < v.len()
        invariant
            i <= v@.len(),
            out@.len() == i,
            forall|k: int| 0 <= k < i ==> #[trigger] out@[k]@ == v@[k]@,
        decreases v@.len() - i,
    {
        out.push(v[i].clone());
        i = i + 1;
    }
    assert(strings_view(out@) =~= strings_view(v@));
    out
}

impl SlashCommandInfo {
    /// The information of a command.
    pub fn of<F>(command: &SlashCommand<F>) -> (r: SlashCommandInfo)
        ensures
            r.name@ == command.name@,
            r.description@ == command.description@,
            strings_view(r.aliases@) == strings_view(command.aliases@),
    {
        SlashCommandInfo {
            name: command.name.clone(),
            description: command.description.clone(),
            aliases: copy_strings(&command.aliases),
        }
    }
}

/// `Arc::clone`: another pointer to the same command, which as a value equals the first.
#[verifier::external_body]
fn share<T>(a: &Arc<T>) -> (r: Arc<T>)
    ensures
        r == *a,
{
    Arc::clone(a)
}

/// The value bound to `k` in a list of named entries: the first entry with that name.
pub open spec fn lookup<T>(entries: Seq<(String, Arc<T>)>, k: Seq<char>) -> Option<T>
    decreases entries.len(),
{
    if entries.len() == 0 {
        None
    } else if entries[0].0@ == k {
        Some(*entries[0].1)
    } else {
        lookup(entries.drop_first(), k)
    }
}

/// The commands a registry holds, by name and by name or alias.
pub struct SlashCommandRegistry<F> {
    commands: Vec<(String, Arc<SlashCommand<F>>)>,
    aliases: Vec<(String, Arc<SlashCommand<F>>)>,
}

/// The keys of a table, in order.
pub open spec fn keys_of<T>(e: Seq<(String, Arc<T>)>) -> Seq<Seq<char>> {
    e.map_values(|p: (String, Arc<T>)| p.0@)
}

proof fn lemma_lookup_some<T>(e: Seq<(String, Arc<T>)>, k: Seq<char>)
    ensures
        lookup(e, k) is Some <==> keys_of(e).contains(k),
    decreases e.len(),
{
    if e.len() > 0 {
        lemma_lookup_some(e.drop_first(), k);
        assert(keys_of(e.drop_first()) =~= keys_of(e).drop_first());
        if keys_of(e).contains(k) && e[0].0@ != k {
            let i = choose|i: int| 0 <= i < keys_of(e).len() && keys_of(e)[i] == k;
            assert(keys_of(e.drop_first())[i - 1] == k);
        }
        if keys_of(e.drop_first()).contains(k) {
            let i = choose|i: int| 0 <= i < keys_of(e.drop_first()).len() && keys_of(e.drop_first())[i] == k;
            assert(keys_of(e)[i + 1] == k);
        }
        if e[0].0@ == k {
            assert(keys_of(e)[0] == k);
        }
    }
}

fn bind<T>(entries: &mut Vec<(String, Arc<T>)>, k: String, v: &Arc<T>)
    ensures
        keys_of(final(entries)@) == if keys_of(old(entries)@).contains(k@) {
            keys_of(old(entries)@)
        } else {
            keys_of(old(entries)@).push(k@)
        },
        keys_of(old(entries)@).contains(k@) ==> exists|i0: int| {
            &&& 0 <= i0 < old(entries)@.len()
            &&& old(entries)@[i0].0@ == k@
            &&& final(entries)@ == old(entries)@.update(i0, final(entries)@[i0])
            &&& final(entries)@[i0].0@ == k@
            &&& *final(entries)@[i0].1 == **v
        },
        !keys_of(old(entries)@).contains(k@) ==> {
            &&& final(entries)@ == old(entries)@.push(final(entries)@.last())
            &&& final(entries)@.last().0@ == k@
            &&& *final(entries)@.last().1 == **v
        },
        forall|j: Seq<char>| #[trigger] lookup(final(entries)@, j) == if j == k@ {
            Some(**v)
        } else {
            lookup(old(entries)@, j)
        },
{
    let ghost e0 = entries@;
    let mut i: usize = 0;
    while i < entries.len()
        invariant
            i <= entries@.len(),
            entries@ == e0,
            e0 == old(entries)@,
            forall|m: int| 0 <= m < i ==> entries@[m].0@ != k@,
        decreases entries@.len() - i,
    {
        if crate::text::str_eq(entries[i].0.as_str(), k.as_str()) {
            let ghost kv = k@;
            let sv = share(v);
            let pair = (k, sv);
            let ghost x = pair;
            assert(x.0@ == kv && *x.1 == **v);
            entries.set(i, pair);
            assert(entries@ == e0.update(i as int, x));
            proof {
                assert(entries@[i as int] == x);
                assert(keys_of(entries@) =~= keys_of(e0));
                assert(keys_of(e0)[i as int] == kv);
                assert forall|j: Seq<char>| #[trigger] lookup(entries@, j) == if j == kv {
                    Some(**v)
                } else {
                    lookup(e0, j)
                } by {
                    lemma_lookup_set(e0, i as int, x, j);
                }
            }
            return;
        }
        i = i + 1;
    }
    let ghost kv = k@;
    entries.push((k, share(v)));
    proof {
        assert(keys_of(entries@) =~= keys_of(e0).push(kv));
        assert(!keys_of(e0).contains(kv)) by {
            if keys_of(e0).contains(kv) {
                let m = choose|m: int| 0 <= m < keys_of(e0).len() && keys_of(e0)[m] == kv;
                assert(e0[m].0@ == kv);
            }
        }
        assert forall|j: Seq<char>| #[trigger] lookup(entries@, j) == if j == entries@.last().0@ {
            Some(*entries@.last().1)
        } else {
            lookup(e0, j)
        } by {
            assert(entries@ =~= e0.push(entries@.last()));
            lemma_lookup_push(e0, entries@.last(), j);
        }
    }
}

proof fn lemma_lookup_set<T>(e: Seq<(String, Arc<T>)>, i: int, x: (String, Arc<T>), j: Seq<char>)
    requires
        0 <= i < e.len(),
        e[i].0@ == x.0@,
        forall|m: int| 0 <= m < i ==> e[m].0@ != x.0@,
    ensures
        lookup(e.update(i, x), j) == if j == x.0@ {
            Some(*x.1)
        } else {
            lookup(e, j)
        },
    decreases e.len(),
{
    let u = e.update(i, x);
    if i == 0 {
        assert(u.drop_first() =~= e.drop_first());
    } else {
        assert(u[0] == e[0]);
        assert(u.drop_first() =~= e.drop_first().update(i - 1, x));
        lemma_lookup_set(e.drop_first(), i - 1, x, j);
    }
}

proof fn lemma_lookup_push<T>(e: Seq<(String, Arc<T>)>, x: (String, Arc<T>), j: Seq<char>)
    requires
        forall|m: int| 0 <= m < e.len() ==> e[m].0@ != x.0@,
    ensures
        lookup(e.push(x), j) == if j == x.0@ {
            Some(*x.1)
        } else {
            lookup(e, j)
        },
    decreases e.len(),
{
    if e.len() > 0 {
        assert(e.push(x)[0] == e[0]);
        assert(e.push(x).drop_first() =~= e.drop_first().push(x));
        lemma_lookup_push(e.drop_first(), x, j);
    } else {
        assert(e.push(x).drop_first() =~= e);
    }
}

impl<F> SlashCommandRegistry<F> {
    /// The command registered under a name.
    pub closed spec fn command(&self, name: Seq<char>) -> Option<SlashCommand<F>> {
        lookup(self.commands@, name)
    }

    /// The command found by a name or an alias.
    pub closed spec fn found(&self, key: Seq<char>) -> Option<SlashCommand<F>> {
        lookup(self.aliases@, key)
    }

    /// The commands in the order they were first registered.
    pub closed spec fn listed(&self) -> Seq<SlashCommand<F>> {
        self.commands@.map_values(|e: (String, Arc<SlashCommand<F>>)| *e.1)
    }

    /// The names of the listed commands, in the order they were first registered.
    pub closed spec fn listed_names(&self) -> Seq<Seq<char>> {
        keys_of(self.commands@)
    }

    /// Each name is listed once, with the command registered under it.
    pub closed spec fn wf(&self) -> bool {
        &&& keys_of(self.commands@).no_duplicates()
        &&& forall|i: int| 0 <= i < self.commands@.len() ==> (*(#[trigger] self.commands@[i]).1).name@ == self.commands@[i].0@
    }

    /// An empty registry.
    pub fn new() -> (r: SlashCommandRegistry<F>)
        ensures
            r.wf(),
            forall|k: Seq<char>| #[trigger] r.command(k) is None,
            forall|k: Seq<char>| #[trigger] r.found(k) is None,
            r.listed().len() == 0,
            r.listed_names().len() == 0,
    {
        let r = SlashCommandRegistry { commands: Vec::new(), aliases: Vec::new() };
        assert(keys_of(r.commands@) =~= Seq::<Seq<char>>::empty());
        r
    }

    /// Registers a command under its name and its aliases, with its description trimmed; a
    /// later registration of a name or alias replaces the earlier one.
    pub fn register(&mut self, name: String, description: String, func: F, aliases: Vec<String>) -> (r: Arc<
        SlashCommand<F>,
    >)
        requires
            old(self).wf(),
        ensures
            final(self).wf(),
            final(self).listed_names() == if old(self).listed_names().contains(name@) {
                old(self).listed_names()
            } else {
                old(self).listed_names().push(name@)
            },
            final(self).listed().len() == final(self).listed_names().len(),
            forall|i: int| 0 <= i < final(self).listed().len() ==> #[trigger] final(self).listed()[i] == if final(self).listed_names()[i] == name@ {
                *r
            } else {
                old(self).listed()[i]
            },
            r.name@ == name@,
            r.description@ == trim(description@),
            strings_view(r.aliases@) == strings_view(aliases@),
            final(self).command(name@) == Some(*r),
            forall|k: Seq<char>| k != name@ ==> #[trigger] final(self).command(k) == old(self).command(k),
            forall|k: Seq<char>| #[trigger] final(self).found(k) == if k == name@ || strings_view(aliases@).contains(k) {
                Some(*r)
            } else {
                old(self).found(k)
            },
    {
        let d = trim_chars(str_chars(description.as_str()).as_slice());
        let cmd = Arc::new(
            SlashCommand {
                name: name.clone(),
                description: string_from_chars(d.as_slice()),
                func,
                aliases: copy_strings(&aliases),
            },
        );
        let ghost before = self.aliases@;
        let ghost c0 = self.commands@;
        bind(&mut self.commands, name.clone(), &cmd);
        proof {
            let c1 = self.commands@;
            let ghost i0: int = if keys_of(c0).contains(name@) {
                choose|i0: int| {
                    &&& 0 <= i0 < c0.len()
                    &&& c0[i0].0@ == name@
                    &&& c1 == c0.update(i0, c1[i0])
                    &&& c1[i0].0@ == name@
                    &&& *c1[i0].1 == *cmd
                }
            } else {
                c0.len() as int
            };
            assert(0 <= i0 < c1.len() && c1[i0].0@ == name@ && *c1[i0].1 == *cmd);
            assert forall|i: int| 0 <= i < c1.len() && i != i0 implies #[trigger] c1[i] == c0[i] by {}
            assert forall|i: int| 0 <= i < c1.len() && i != i0 implies c1[i].0@ != name@ by {
                if keys_of(c0).contains(name@) {
                    assert(keys_of(c0)[i] == c0[i].0@);
                    assert(keys_of(c0)[i0] == c0[i0].0@);
                } else {
                    assert(keys_of(c0)[i] == c0[i].0@);
                }
            }
            assert(keys_of(c1) =~= if keys_of(c0).contains(name@) {
                keys_of(c0)
            } else {
                keys_of(c0).push(name@)
            });
            assert forall|i: int| 0 <= i < c1.len() implies (*(#[trigger] c1[i]).1).name@ == c1[i].0@ by {
                if i != i0 {
                    assert(c1[i] == c0[i]);
                }
            }
            if !keys_of(c0).contains(name@) {
                assert(keys_of(c0).push(name@).no_duplicates()) by {
                    assert forall|a: int, b: int| 0 <= a < b < keys_of(c0).push(name@).len() implies keys_of(c0).push(name@)[a]
                        != keys_of(c0).push(name@)[b] by {
                        if b == keys_of(c0).len() {
                            assert(keys_of(c0)[a] == keys_of(c0).push(name@)[a]);
                        }
                    }
                }
            }
            let l1 = c1.map_values(|e: (String, Arc<SlashCommand<F>>)| *e.1);
            let l0 = c0.map_values(|e: (String, Arc<SlashCommand<F>>)| *e.1);
            assert forall|i: int| 0 <= i < c1.len() implies #[trigger] l1[i] == if keys_of(c1)[i] == name@ {
                *cmd
            } else {
                l0[i]
            } by {
                assert(keys_of(c1)[i] == c1[i].0@);
                if i != i0 {
                    assert(c1[i] == c0[i]);
                }
            }
        }
        bind(&mut self.aliases, name, &cmd);
        let ghost cmds = self.commands@;
        let mut i: usize = 0;
        while i < aliases.len()
            invariant
                i <= aliases@.len(),
                self.commands@ == cmds,
                forall|k: Seq<char>| #[trigger] lookup(self.aliases@, k) == if k == cmd.name@
                    || strings_view(aliases@).take(i as int).contains(k) {
                    Some(*cmd)
                } else {
                    lookup(before, k)
                },
            decreases aliases@.len() - i,
        {
            let a = aliases[i].clone();
            let ghost av = a@;
            bind(&mut self.aliases, a, &cmd);
            proof {
                assert forall|k: Seq<char>| #[trigger] lookup(self.aliases@, k) == if k == cmd.name@
                    || strings_view(aliases@).take(i + 1).contains(k) {
                    Some(*cmd)
                } else {
                    lookup(before, k)
                } by {
                    let t = strings_view(aliases@).take(i + 1);
                    assert(t =~= strings_view(aliases@).take(i as int).push(av));
                    if k == av {
                        assert(t[i as int] == k);
                    }
                }
            }
            i = i + 1;
        }
        assert(strings_view(aliases@).take(aliases@.len() as int) =~= strings_view(aliases@));
        cmd
    }

    /// The command with this name or alias.
    pub fn find_command(&self, name: &str) -> (r: Option<Arc<SlashCommand<F>>>)
        ensures
            match r {
                Some(c) => self.found(name@) == Some(*c),
                None => self.found(name@) is None,
            },
    {
        let mut i: usize = 0;
        assert(self.aliases@.skip(0) =~= self.aliases@);
        while i < self.aliases.len()
            invariant
                i <= self.aliases@.len(),
                lookup(self.aliases@, name@) == lookup(self.aliases@.skip(i as int), name@),
            decreases self.aliases@.len() - i,
        {
            assert(self.aliases@.skip(i as int).drop_first() =~= self.aliases@.skip(i + 1));
            if crate::text::str_eq(self.aliases[i].0.as_str(), name) {
                return Some(share(&self.aliases[i].1));
            }
            i = i + 1;
        }
        None
    }

    /// The registered commands, each once.
    pub fn list_commands(&self) -> (r: Vec<Arc<SlashCommand<F>>>)
        ensures
            r@.len() == self.listed().len(),
            r@.len() == self.listed_names().len(),
            forall|i: int| 0 <= i < r@.len() ==> *#[trigger] r@[i] == self.listed()[i],
            self.wf() ==> {
                &&& self.listed_names().no_duplicates()
                &&& forall|i: int| 0 <= i < r@.len() ==> (#[trigger] r@[i]).name@ == self.listed_names()[i]
                &&& forall|k: Seq<char>| #[trigger] self.listed_names().contains(k) <==> self.command(k) is Some
            },
    {
        let mut out: Vec<Arc<SlashCommand<F>>> = Vec::new();
        let mut i: usize = 0;
        while i < self.commands.len()
            invariant
                i <= self.commands@.len(),
                out@.len() == i,
                forall|m: int| 0 <= m < i ==> *#[trigger] out@[m] == *self.commands@[m].1,
            decreases self.commands@.len() - i,
        {
            out.push(share(&self.commands[i].1));
            i = i + 1;
        }
        proof {
            assert forall|k: Seq<char>| #[trigger] self.listed_names().contains(k) <==> self.command(k) is Some by {
                lemma_lookup_some(self.commands@, k);
            }
            if self.wf() {
                assert forall|i: int| 0 <= i < out@.len() implies (#[trigger] out@[i]).name@ == self.listed_names()[i] by {
                    assert((*self.commands@[i].1).name@ == self.commands@[i].0@);
                }
            }
        }
        out
    }
}

/// A registered command is found by its name and by each of its aliases until a later
/// registration takes the name or alias.
pub proof fn lemma_registered_found<F>(
    before: SlashCommandRegistry<F>,
    after: SlashCommandRegistry<F>,
    r: SlashCommand<F>,
    name: Seq<char>,
    aliases: Seq<Seq<char>>,
    key: Seq<char>,
)
    requires
        forall|k: Seq<char>| #[trigger] after.found(k) == if k == name || aliases.contains(k) {
            Some(r)
        } else {
            before.found(k)
        },
        key == name || aliases.contains(key),
    ensures
        after.found(key) == Some(r),
{
}

/// A slash command as the user typed it.
pub struct SlashCommandCall {
    pub name: String,
    pub args: String,
    pub raw_input: String,
}

/// A character of a command name: `[a-zA-Z0-9_-]`.
pub open spec fn name_char(c: char) -> bool {
    ('a' <= c <= 'z') || ('A' <= c <= 'Z') || ('0' <= c <= '9') || c == '_' || c == '-'
}

/// The first index from `i` on that holds no name character.
pub open spec fn name_run_end(s: Seq<char>, i: int) -> int
    decreases s.len() - i,
{
    if i < 0 || i >= s.len() || !name_char(s[i]) {
        i
    } else {
        name_run_end(s, i + 1)
    }
}

/// The end of `segment(:segment)*` that starts at `i`, where `i` ends a segment.
pub open spec fn name_end(s: Seq<char>, i: int) -> int
    decreases s.len() - i,
{
    if 0 <= i && i + 1 < s.len() && s[i] == ':' && name_char(s[i + 1]) {
        proof {
            lemma_name_run_end_bounds(s, i + 1);
        }
        name_end(s, name_run_end(s, i + 1))
    } else {
        i
    }
}

/// What `/name args` gives: the name (segments joined by `:`), the arguments with leading
/// white space removed, and the whole trimmed input; `None` for input that is not a command.
pub open spec fn slash_call_spec(input: Seq<char>) -> Option<(Seq<char>, Seq<char>, Seq<char>)> {
    let t = trim(input);
    if t.len() < 2 || t[0] != '/' || !name_char(t[1]) {
        None
    } else {
        let e = name_end(t, name_run_end(t, 1));
        if e < t.len() && !is_ws(t[e]) {
            None
        } else {
            Some((t.subrange(1, e), trim_start(t.skip(e)), t))
        }
    }
}

pub proof fn lemma_name_run_end_bounds(s: Seq<char>, i: int)
    requires
        0 <= i <= s.len(),
    ensures
        i <= name_run_end(s, i) <= s.len(),
    decreases s.len() - i,
{
    if i < s.len() && name_char(s[i]) {
        lemma_name_run_end_bounds(s, i + 1);
    }
}

proof fn lemma_name_run_end_shape(s: Seq<char>, i: int)
    requires
        0 <= i <= s.len(),
    ensures
        i <= name_run_end(s, i) <= s.len(),
        forall|k: int| i <= k < name_run_end(s, i) ==> name_char(#[trigger] s[k]),
        name_run_end(s, i) < s.len() ==> !name_char(s[name_run_end(s, i)]),
    decreases s.len() - i,
{
    if i < s.len() && name_char(s[i]) {
        lemma_name_run_end_shape(s, i + 1);
    }
}

/// A command name: segments of ASCII letters, digits, `_` and `-`, joined by single `:`.
pub open spec fn is_command_name(n: Seq<char>) -> bool {
    &&& n.len() >= 1
    &&& forall|k: int| 0 <= k < n.len() ==> {
        let c = #[trigger] n[k];
        ('a' <= c <= 'z') || ('A' <= c <= 'Z') || ('0' <= c <= '9') || c == '_' || c == '-' || c == ':'
    }
    &&& n[0] != ':'
    &&& n[n.len() - 1] != ':'
    &&& forall|k: int| 0 <= k < n.len() - 1 && #[trigger] n[k] == ':' ==> n[k + 1] != ':'
}

proof fn lemma_name_end_reaches(s: Seq<char>, n: Seq<char>, end: int, i: int)
    requires
        is_command_name(n),
        end == n.len() + 1,
        end <= s.len(),
        forall|k: int| 1 <= k < end ==> s[k] == n[k - 1],
        end < s.len() ==> s[end] == ' ',
        1 <= i <= end,
        i == end || s[i] == ':',
    ensures
        name_end(s, i) == end,
    decreases end - i,
{
    if i < end {
        assert(s[i] == n[i - 1]);
        assert(i - 1 < n.len() - 1);
        assert(s[i + 1] == n[i]);
        assert(n[i] != ':');
        let c = n[i];
        assert(('a' <= c <= 'z') || ('A' <= c <= 'Z') || ('0' <= c <= '9') || c == '_' || c == '-' || c == ':');
        assert(name_char(s[i + 1]));
        lemma_name_run_end_shape(s, i + 1);
        let r = name_run_end(s, i + 1);
        if r > end {
            assert(name_char(s[end]));
        }
        if r < end {
            assert(s[r] == n[r - 1]);
            let d = n[r - 1];
            assert(('a' <= d <= 'z') || ('A' <= d <= 'Z') || ('0' <= d <= '9') || d == '_' || d == '-' || d == ':');
        }
        lemma_name_end_reaches(s, n, end, r);
    } else {
        if end + 1 < s.len() {
            assert(s[end] == ' ');
        }
    }
}

/// A slash followed by a command name is a call of that command: with nothing after the name
/// the arguments are empty, and with a space and arguments after it (which start and end with
/// a character that is not white space) the arguments are those.
pub proof fn lemma_command_call(n: Seq<char>, args: Seq<char>)
    requires
        is_command_name(n),
        args.len() > 0 ==> !is_ws(args[0]) && !is_ws(args[args.len() - 1]),
    ensures
        ({
            let input = if args.len() == 0 {
                seq!['/'] + n
            } else {
                seq!['/'] + n + seq![' '] + args
            };
            slash_call_spec(input) == Some((n, args, input))
        }),
{
    let input = if args.len() == 0 {
        seq!['/'] + n
    } else {
        seq!['/'] + n + seq![' '] + args
    };
    let end = n.len() as int + 1;
    assert(input[0] == '/');
    assert forall|k: int| 1 <= k < end implies input[k] == n[k - 1] by {}
    if args.len() > 0 {
        assert(input[end] == ' ');
        assert(input[input.len() - 1] == args[args.len() - 1]);
    } else {
        assert(input[input.len() - 1] == n[n.len() - 1]);
        let c = n[n.len() - 1];
        assert(('a' <= c <= 'z') || ('A' <= c <= 'Z') || ('0' <= c <= '9') || c == '_' || c == '-' || c == ':');
    }
    assert(!is_ws(input[input.len() - 1]));
    assert(trim_start_index(input, 0) == 0);
    assert(trim_start(input) =~= input);
    assert(trim_end_index(input, input.len() as int) == input.len());
    assert(trim(input) =~= input);
    let c0 = n[0];
    assert(('a' <= c0 <= 'z') || ('A' <= c0 <= 'Z') || ('0' <= c0 <= '9') || c0 == '_' || c0 == '-' || c0 == ':');
    assert(input[1] == n[0]);
    assert(name_char(input[1]));
    lemma_name_run_end_shape(input, 1);
    let r = name_run_end(input, 1);
    if r > end {
        assert(name_char(input[end]));
    }
    if r < end {
        assert(input[r] == n[r - 1]);
        let d = n[r - 1];
        assert(('a' <= d <= 'z') || ('A' <= d <= 'Z') || ('0' <= d <= '9') || d == '_' || d == '-' || d == ':');
    }
    lemma_name_end_reaches(input, n, end, r);
    assert(input.subrange(1, end) =~= n);
    if args.len() > 0 {
        let y = input.skip(end);
        assert(y =~= seq![' '] + args);
        assert(trim_start_index(y, 1) == 1);
        assert(trim_start_index(y, 0) == 1);
        assert(trim_start(y) =~= args);
    } else {
        assert(input.skip(end) =~= Seq::<char>::empty());
        assert(trim_start(input.skip(end)) =~= Seq::<char>::empty());
    }
}

fn is_name_char(c: char) -> (r: bool)
    ensures
        r == name_char(c),
{
    ('a' <= c && c <= 'z') || ('A' <= c && c <= 'Z') || ('0' <= c && c <= '9') || c == '_' || c == '-'
}

fn name_run(s: &[char], i: usize) -> (r: usize)
    requires
        i <= s@.len(),
    ensures
        r == name_run_end(s@, i as int),
        i <= r <= s@.len(),
{
    let mut k = i;
    while k < s.len() && is_name_char(s[k])
        invariant
            i <= k <= s@.len(),
            name_run_end(s@, i as int) == name_run_end(s@, k as int),
        decreases s@.len() - k,
    {
        k = k + 1;
    }
    k
}

/// Parses `/name args`: a name of `[a-zA-Z0-9_-]` segments joined by `:`, then white space or
/// the end; the arguments are the rest without leading white space.
pub fn parse_slash_command_call(user_input: &str) -> (r: Option<SlashCommandCall>)
    ensures
        match slash_call_spec(user_input@) {
            None => r is None,
            Some((n, a, raw)) => r is Some && r->Some_0.name@ == n && r->Some_0.args@ == a
                && r->Some_0.raw_input@ == raw,
        },
{
    let t = trim_chars(str_chars(user_input).as_slice());
    if t.len() < 2 || t[0] != '/' || !is_name_char(t[1]) {
        return None;
    }
    let mut e = name_run(t.as_slice(), 1);
    proof {
        lemma_name_run_end_bounds(t@, 1);
    }
    while t.len() - e > 1 && t[e] == ':' && is_name_char(t[e + 1])
        invariant
            1 <= e <= t@.len(),
            name_end(t@, name_run_end(t@, 1)) == name_end(t@, e as int),
        decreases t@.len() - e,
    {
        e = name_run(t.as_slice(), e + 1);
    }
    if e < t.len() && !is_whitespace(t[e]) {
        return None;
    }
    let name = slice_chars(t.as_slice(), 1, t.len());
    let name = slice_chars(name.as_slice(), 0, e - 1);
    assert(name@ =~= t@.subrange(1, e as int));
    let rest = slice_chars(t.as_slice(), e, t.len());
    assert(rest@ =~= t@.skip(e as int));
    let args = trim_start_chars(rest.as_slice());
    Some(
        SlashCommandCall {
            name: string_from_chars(name.as_slice()),
            args: string_from_chars(args.as_slice()),
            raw_input: string_from_chars(t.as_slice()),
        },
    )
}

} // verus!
