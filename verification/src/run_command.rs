//! Commands of this desktop that the phone can run.

use vstd::prelude::*;

use crate::json;
use crate::packet;
use crate::packet::{Field, FieldModel, PacketType, ProtocolPacket};
use crate::text::same;

verus! {

/// A command of this desktop.
#[derive(Debug, PartialEq, Eq)]
pub struct LocalCommand {
    pub id: String,
    pub name: String,
    pub command: String,
}

impl LocalCommand {
    /// The same command again.
    pub fn copy(&self) -> (r: LocalCommand)
        ensures
            r == *self,
    {
        LocalCommand {
            id: self.id.clone(),
            name: self.name.clone(),
            command: self.command.clone(),
        }
    }
}

/// A command list from the phone. The list is JSON in a text.
#[derive(Debug, PartialEq, Eq)]
pub struct RunCommand {
    pub command_list: String,
    pub can_add_command: bool,
}

/// A request of the phone: to run a command, or for the list of commands.
#[derive(Debug, PartialEq, Eq)]
pub struct RunCommandRequest {
    pub key: Option<String>,
    pub request_command_list: Option<bool>,
}

impl Default for RunCommandRequest {
    fn default() -> (r: Self)
        ensures
            r == (RunCommandRequest { key: None, request_command_list: None }),
    {
        RunCommandRequest { key: None, request_command_list: None }
    }
}

/// Some command has the identifier.
pub open spec fn known(commands: Seq<LocalCommand>, id: Seq<char>) -> bool {
    exists|i: int| 0 <= i < commands.len() && (#[trigger] commands[i]).id@ == id
}

/// What an entry of a command list offers: a name and a command, neither of
/// them empty.
pub open spec fn offer(entry: (Option<Seq<char>>, Option<Seq<char>>)) -> Option<
    (Seq<char>, Seq<char>),
> {
    if entry.0 is Some && entry.1 is Some && entry.0->0.len() > 0 && entry.1->0.len() > 0 {
        Some((entry.0->0, entry.1->0))
    } else {
        None
    }
}

/// The commands after the offers of a list were taken in: every command stays
/// as it is, and each offer under a new identifier is added once.
pub open spec fn merged(
    before: Seq<LocalCommand>,
    incoming: Map<Seq<char>, (Option<Seq<char>>, Option<Seq<char>>)>,
    now: Seq<LocalCommand>,
) -> bool {
    &&& before.len() <= now.len()
    &&& now.take(before.len() as int) == before
    &&& forall|id: Seq<char>| #[trigger]
        known(now, id) <==> known(before, id) || (incoming.contains_key(id) && offer(
            incoming[id],
        ) is Some)
    &&& forall|i: int|
        before.len() <= i < now.len() ==> {
            let c = #[trigger] now[i];
            &&& !known(before, c.id@)
            &&& incoming.contains_key(c.id@)
            &&& offer(incoming[c.id@]) == Some((c.name@, c.command@))
        }
    &&& forall|i: int, j: int|
        #![trigger now[i], now[j]]
        before.len() <= i < j < now.len() ==> now[i].id@ != now[j].id@
}

fn find(commands: &Vec<LocalCommand>, id: &str) -> (r: Option<usize>)
    ensures
        r is Some <==> known(commands@, id@),
        r is Some ==> r->0 < commands@.len() && commands@[r->0 as int].id@ == id@,
        r is Some ==> forall|j: int| 0 <= j < r->0 ==> (#[trigger] commands@[j]).id@ != id@,
{
    let mut i: usize = 0;
    while i < commands.len()
        invariant
            i <= commands@.len(),
            forall|j: int| 0 <= j < i ==> (#[trigger] commands@[j]).id@ != id@,
        decreases commands@.len() - i,
    {
        if same(&commands[i].id, id) {
            proof {
                assert(commands@[i as int].id@ == id@);
            }
            return Some(i);
        }
        i = i + 1;
    }
    None
}

proof fn lemma_known_push(commands: Seq<LocalCommand>, c: LocalCommand, id: Seq<char>)
    ensures
        known(commands.push(c), id) <==> known(commands, id) || c.id@ == id,
{
    let now = commands.push(c);
    if known(commands, id) {
        let i = choose|i: int| 0 <= i < commands.len() && (#[trigger] commands[i]).id@ == id;
        assert(now[i] == commands[i]);
    }
    if c.id@ == id {
        assert(now[commands.len() as int].id@ == id);
    }
    if known(now, id) {
        let i = choose|i: int| 0 <= i < now.len() && (#[trigger] now[i]).id@ == id;
        if i < commands.len() {
            assert(commands[i] == now[i]);
        }
    }
}

proof fn lemma_member_key(
    entries: Seq<(String, Option<String>, Option<String>)>,
    n: int,
    id: Seq<char>,
)
    requires
        0 <= n <= entries.len(),
    ensures
        json::member_map(entries.take(n)).contains_key(id) <==> exists|i: int|
            0 <= i < n && (#[trigger] entries[i]).0@ == id,
    decreases n,
{
    if n > 0 {
        assert(entries.take(n).drop_last() == entries.take(n - 1));
        lemma_member_key(entries, n - 1, id);
        assert(entries.take(n).last() == entries[n - 1]);
        let is_in = json::member_map(entries.take(n)).contains_key(id);
        if is_in {
            if entries[n - 1].0@ != id {
                let i = choose|i: int| 0 <= i < n - 1 && (#[trigger] entries[i]).0@ == id;
                assert(entries[i].0@ == id);
            }
        }
    }
}

proof fn lemma_member_value(
    entries: Seq<(String, Option<String>, Option<String>)>,
    n: int,
    i: int,
)
    requires
        0 <= i < n <= entries.len(),
        forall|a: int, b: int|
            0 <= a < b < entries.len() ==> (#[trigger] entries[a]).0@ != (#[trigger] entries[b]).0@,
    ensures
        json::member_map(entries.take(n)).contains_key(entries[i].0@),
        json::member_map(entries.take(n))[entries[i].0@] == json::entry_view(entries[i]),
    decreases n,
{
    assert(entries.take(n).drop_last() == entries.take(n - 1));
    assert(entries.take(n).last() == entries[n - 1]);
    if i < n - 1 {
        lemma_member_value(entries, n - 1, i);
        assert(entries[i].0@ != entries[n - 1].0@);
    }
}

fn merge(
    commands: &Vec<LocalCommand>,
    entries: &Vec<(String, Option<String>, Option<String>)>,
) -> (r: Vec<LocalCommand>)
    requires
        forall|a: int, b: int|
            0 <= a < b < entries@.len() ==> (#[trigger] entries@[a]).0@ != (
            #[trigger] entries@[b]).0@,
    ensures
        merged(commands@, json::member_map(entries@), r@),
{
    let ghost before = commands@;
    let ghost all = entries@;
    let mut r: Vec<LocalCommand> = Vec::new();
    let mut n: usize = 0;
    while n < commands.len()
        invariant
            n <= commands@.len(),
            r@ == commands@.take(n as int),
        decreases commands@.len() - n,
    {
        r.push(commands[n].copy());
        proof {
            assert(commands@.take(n + 1) == commands@.take(n as int).push(commands@[n as int]));
        }
        n = n + 1;
    }
    let mut i: usize = 0;
    proof {
        assert(commands@.take(n as int) == before);
        assert(r@.take(before.len() as int) =~= before);
        assert(all.take(0) =~= Seq::empty());
    }
    while i < entries.len()
        invariant
            i <= entries@.len(),
            before == commands@,
            all == entries@,
            forall|a: int, b: int|
                0 <= a < b < all.len() ==> (#[trigger] all[a]).0@ != (#[trigger] all[b]).0@,
            merged(before, json::member_map(all.take(i as int)), r@),
        decreases entries@.len() - i,
    {
        let ghost map = json::member_map(all.take(i as int));
        let ghost next = json::member_map(all.take(i + 1));
        let ghost had = r@;
        let ghost key = all[i as int].0@;
        let ghost value = json::entry_view(all[i as int]);
        proof {
            assert(all.take(i + 1).drop_last() == all.take(i as int));
            assert(all.take(i + 1).last() == all[i as int]);
            assert(next == map.insert(key, value));
            lemma_member_key(all, i as int, key);
            assert(!map.contains_key(key));
        }
        let id = &entries[i].0;
        let usable = match (&entries[i].1, &entries[i].2) {
            (Some(name), Some(command)) => !name.as_str().is_empty() && !command.as_str().is_empty(),
            _ => false,
        };
        proof {
            assert(usable == (offer(value) is Some));
        }
        if usable && find(&r, id).is_none() {
            if let (Some(name), Some(command)) = (&entries[i].1, &entries[i].2) {
                let c = LocalCommand {
                    id: id.clone(),
                    name: name.clone(),
                    command: command.clone(),
                };
                r.push(c);
                proof {
                    assert(r@ == had.push(c));
                    assert(r@.take(before.len() as int) =~= had.take(before.len() as int));
                    assert(!known(before, key)) by {
                        assert(known(had, key) <==> known(before, key) || (map.contains_key(key)
                            && offer(map[key]) is Some));
                    }
                    assert forall|k: Seq<char>| #[trigger]
                        known(r@, k) <==> known(before, k) || (next.contains_key(k) && offer(
                            next[k],
                        ) is Some) by {
                        lemma_known_push(had, c, k);
                        assert(known(had, k) <==> known(before, k) || (map.contains_key(k) && offer(
                            map[k],
                        ) is Some));
                    }
                    assert forall|a: int| before.len() <= a < r@.len() implies {
                        let x = #[trigger] r@[a];
                        &&& !known(before, x.id@)
                        &&& next.contains_key(x.id@)
                        &&& offer(next[x.id@]) == Some((x.name@, x.command@))
                    } by {
                        if a < had.len() {
                            assert(r@[a] == had[a]);
                            assert(had[a].id@ != key) by {
                                assert(known(had, had[a].id@));
                            }
                        }
                    }
                    assert forall|a: int, b: int|
                        #![trigger r@[a], r@[b]]
                        before.len() <= a < b < r@.len() implies r@[a].id@ != r@[b].id@ by {
                        assert(r@[a] == had[a]);
                        if b < had.len() {
                            assert(r@[b] == had[b]);
                        } else {
                            assert(known(had, had[a].id@));
                        }
                    }
                }
            }
        } else {
            proof {
                assert forall|k: Seq<char>| #[trigger]
                    known(r@, k) <==> known(before, k) || (next.contains_key(k) && offer(
                        next[k],
                    ) is Some) by {
                    assert(known(had, k) <==> known(before, k) || (map.contains_key(k) && offer(
                        map[k],
                    ) is Some));
                    if k == key && offer(value) is Some {
                        assert(known(r@, key));
                    }
                }
                assert forall|a: int| before.len() <= a < r@.len() implies {
                    let x = #[trigger] r@[a];
                    &&& !known(before, x.id@)
                    &&& next.contains_key(x.id@)
                    &&& offer(next[x.id@]) == Some((x.name@, x.command@))
                } by {
                    assert(map.contains_key(r@[a].id@));
                    assert(r@[a].id@ != key);
                }
            }
        }
        i = i + 1;
    }
    proof {
        assert(all.take(i as int) == all);
    }
    r
}

impl RunCommand {
    /// The commands to store, where the list of the phone brings new ones. The
    /// stored list is then sent back.
    pub fn received_packet(&self, commands: &Vec<LocalCommand>) -> (r: Option<Vec<LocalCommand>>)
        ensures
            ({
                let list = json::json_members(self.command_list@, "name"@, "command"@);
                &&& r is Some <==> list is Some && exists|id: Seq<char>|
                    #![trigger list->0.contains_key(id)]
                    list->0.contains_key(id) && offer(list->0[id]) is Some && !known(commands@, id)
                &&& r is Some ==> merged(commands@, list->0, r->0@)
            }),
            r is Some ==> ({
                &&& commands@.len() <= r->0@.len()
    &&& r->0@.take(commands@.len() as int) == commands@
    &&& forall|id: Seq<char>| #[trigger]
        known(r->0@, id) <==> known(commands@, id) || (json::json_members(self.command_list@, "name"@, "command"@)->0.contains_key(id) && offer(
            json::json_members(self.command_list@, "name"@, "command"@)->0[id],
        ) is Some)
    &&& forall|i: int|
        commands@.len() <= i < r->0@.len() ==> {
            let c = #[trigger] r->0@[i];
            &&& !known(commands@, c.id@)
            &&& json::json_members(self.command_list@, "name"@, "command"@)->0.contains_key(c.id@)
            &&& offer(json::json_members(self.command_list@, "name"@, "command"@)->0[c.id@]) == Some((c.name@, c.command@))
        }
    &&& forall|i: int, j: int|
        #![trigger r->0@[i], r->0@[j]]
        commands@.len() <= i < j < r->0@.len() ==> r->0@[i].id@ != r->0@[j].id@
            }),
    {
        match json::members_of(&self.command_list, "name", "command") {
            Some(entries) => {
                let ghost map = json::member_map(entries@);
                let now = merge(commands, &entries);
                proof {
                    assert(now@.take(commands@.len() as int) == commands@);
                }
                if now.len() > commands.len() {
                    proof {
                        let c = now@[commands@.len() as int];
                        assert(map.contains_key(c.id@));
                    }
                    Some(now)
                } else {
                    proof {
                        assert(now@ =~= commands@);
                        assert forall|id: Seq<char>| #[trigger]
                            map.contains_key(id) && offer(map[id]) is Some implies known(
                            commands@,
                            id,
                        ) by {
                            assert(known(now@, id));
                        }
                    }
                    None
                }
            },
            None => None,
        }
    }
}

/// What a request of the phone leads to.
#[derive(Debug, PartialEq, Eq)]
pub enum CommandStep {
    Nothing,
    /// Run the command line in a shell.
    Run { command: String },
    /// There is no such command.
    Unknown,
    /// Send the list of commands.
    SendList,
}

impl RunCommandRequest {
    /// What the request leads to. A key is looked up among the commands; the
    /// first command under it counts.
    pub fn received_packet(&self, commands: &Vec<LocalCommand>) -> (r: CommandStep)
        ensures
            self.key is Some && !known(commands@, self.key->0@) ==> r is Unknown,
            self.key is Some && known(commands@, self.key->0@) ==> (r matches CommandStep::Run {
                command,
            } && exists|i: int|
                0 <= i < commands@.len() && (#[trigger] commands@[i]).id@ == self.key->0@
                    && commands@[i].command == command && forall|j: int|
                    0 <= j < i ==> (#[trigger] commands@[j]).id@ != self.key->0@),
            self.key is None ==> r == (if self.request_command_list == Some(true) {
                CommandStep::SendList
            } else {
                CommandStep::Nothing
            }),
    {
        match &self.key {
            Some(key) => match find(commands, key) {
                Some(i) => CommandStep::Run { command: commands[i].command.clone() },
                None => CommandStep::Unknown,
            },
            None => match self.request_command_list {
                Some(true) => CommandStep::SendList,
                _ => CommandStep::Nothing,
            },
        }
    }
}

/// The argument list that runs a command line, inside or outside a sandbox.
pub open spec fn shell_words(in_flatpak: bool, command: Seq<char>) -> Seq<Seq<char>> {
    if in_flatpak {
        seq!["flatpak-spawn"@, "--host"@, "sh"@, "-c"@, command]
    } else {
        seq!["sh"@, "-c"@, command]
    }
}

/// The program and arguments that run the command line.
pub fn shell_command(in_flatpak: bool, command: &str) -> (r: Vec<String>)
    ensures
        r.deep_view() == shell_words(in_flatpak, command@),
        r@.len() == (if in_flatpak {
            5nat
        } else {
            3nat
        }),
        r@[r@.len() - 1]@ == command@,
        r@[r@.len() - 2]@ == "-c"@,
        r@[r@.len() - 3]@ == "sh"@,
        in_flatpak ==> r@[0]@ == "flatpak-spawn"@ && r@[1]@ == "--host"@,
{
    let mut r: Vec<String> = Vec::new();
    if in_flatpak {
        r.push("flatpak-spawn".to_owned());
        r.push("--host".to_owned());
    }
    r.push("sh".to_owned());
    r.push("-c".to_owned());
    r.push(command.to_owned());
    proof {
        assert(r.deep_view() =~= shell_words(in_flatpak, command@));
    }
    r
}

/// The commands by identifier, the last under one counting.
pub open spec fn command_map(commands: Seq<LocalCommand>) -> Map<
    Seq<char>,
    (Seq<char>, Seq<char>),
>
    decreases commands.len(),
{
    if commands.len() == 0 {
        Map::empty()
    } else {
        command_map(commands.drop_last()).insert(
            commands.last().id@,
            (commands.last().name@, commands.last().command@),
        )
    }
}

/// The packet that tells the phone the commands of this desktop. The list is
/// JSON in a text.
pub fn send_command_list(commands: &Vec<LocalCommand>) -> (r: ProtocolPacket)
    ensures
        r@ == packet::object(
            PacketType::RunCommand,
            seq![
                (
                    "commandList"@,
                    FieldModel::Text(
                        json::members_json(command_map(commands@), "name"@, "command"@),
                    ),
                ),
                ("canAddCommand"@, FieldModel::Flag(true)),
            ],
        ),
        json::json_members(
            json::members_json(command_map(commands@), "name"@, "command"@),
            "name"@,
            "command"@,
        ) == Some(
            command_map(commands@).map_values(
                |p: (Seq<char>, Seq<char>)| (Some(p.0), Some(p.1)),
            ),
        ),
{
    let mut entries: Vec<(String, String, String)> = Vec::new();
    let mut i: usize = 0;
    proof {
        assert(commands@.take(0) =~= Seq::empty());
    }
    while i < commands.len()
        invariant
            i <= commands@.len(),
            json::pair_map(entries@) == command_map(commands@.take(i as int)),
        decreases commands@.len() - i,
    {
        let c = &commands[i];
        let ghost before = entries@;
        entries.push((c.id.clone(), c.name.clone(), c.command.clone()));
        proof {
            assert(entries@.drop_last() =~= before);
            assert(commands@.take(i + 1).drop_last() == commands@.take(i as int));
            assert(commands@.take(i + 1).last() == *c);
        }
        i = i + 1;
    }
    proof {
        assert(commands@.take(i as int) == commands@);
        reveal_strlit("name");
        reveal_strlit("command");
        assert("name"@.len() != "command"@.len());
    }
    let list = json::members_text(&entries, "name", "command");
    ProtocolPacket::with_fields(
        PacketType::RunCommand,
        "commandList",
        Field::Text(list),
        "canAddCommand",
        Field::Flag(true),
    )
}

proof fn lemma_command_map(commands: Seq<LocalCommand>, id: Seq<char>)
    ensures
        command_map(commands).contains_key(id) <==> known(commands, id),
    decreases commands.len(),
{
    if commands.len() > 0 {
        lemma_command_map(commands.drop_last(), id);
        assert(commands.drop_last().push(commands.last()) =~= commands);
        lemma_known_push(commands.drop_last(), commands.last(), id);
    }
}

/// The list that is sent to the phone brings nothing new when the phone sends
/// it back.
pub proof fn lemma_own_list_adds_nothing(commands: Seq<LocalCommand>)
    ensures
        ({
            let sent = command_map(commands).map_values(
                |p: (Seq<char>, Seq<char>)| (Some(p.0), Some(p.1)),
            );
            !exists|id: Seq<char>|
                #![trigger sent.contains_key(id)]
                sent.contains_key(id) && offer(sent[id]) is Some && !known(commands, id)
        }),
{
    let sent = command_map(commands).map_values(
        |p: (Seq<char>, Seq<char>)| (Some(p.0), Some(p.1)),
    );
    assert forall|id: Seq<char>| #[trigger] sent.contains_key(id) implies known(commands, id) by {
        lemma_command_map(commands, id);
    }
}

/// An entry offers a command when it has both a name and a command line, and
/// neither is empty.
pub proof fn lemma_offers(name: Seq<char>, command: Seq<char>)
    ensures
        name.len() > 0 && command.len() > 0 ==> offer((Some(name), Some(command))) == Some(
            (name, command),
        ),
        name.len() == 0 || command.len() == 0 ==> offer((Some(name), Some(command))) is None,
        offer((None, Some(command))) is None,
        offer((Some(name), None)) is None,
{
}

/// The list that is sent to the phone holds every command under its identifier,
/// the last under one counting, and nothing else.
pub proof fn lemma_all_commands_are_listed(commands: Seq<LocalCommand>, i: int)
    requires
        0 <= i < commands.len(),
        forall|j: int| i < j < commands.len() ==> (#[trigger] commands[j]).id@ != commands[i].id@,
    ensures
        command_map(commands).contains_key(commands[i].id@),
        command_map(commands)[commands[i].id@] == (commands[i].name@, commands[i].command@),
        forall|id: Seq<char>| #[trigger]
            command_map(commands).contains_key(id) <==> exists|k: int|
                0 <= k < commands.len() && (#[trigger] commands[k]).id@ == id,
    decreases commands.len(),
{
    let less = commands.drop_last();
    assert(commands[commands.len() - 1] == commands.last());
    if i < less.len() {
        assert(less[i] == commands[i]);
        assert forall|j: int| i < j < less.len() implies (#[trigger] less[j]).id@ != less[i].id@ by {
            assert(commands[j].id@ != commands[i].id@);
        }
        lemma_all_commands_are_listed(less, i);
    }
    assert forall|id: Seq<char>| #[trigger]
        command_map(commands).contains_key(id) <==> exists|k: int|
            0 <= k < commands.len() && (#[trigger] commands[k]).id@ == id by {
        lemma_command_map(commands, id);
    }
}

} // verus!
