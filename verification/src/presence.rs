//! Presence: each client's availability status and its announcement.
use vstd::prelude::*;
use std::collections::HashMap;
use crate::text::{all_white_space, lemma_trimmed_padded, trimmed, trim_equals};

verus! {

/// Availability status of a client.
#[derive(Clone, Copy, Debug, PartialEq, Eq, Structural)]
pub enum PresenceStatus {
    Online,
    Away,
    Busy,
}

impl Default for PresenceStatus {
    fn default() -> (s: Self)
        ensures
            s == PresenceStatus::Online,
    {
        PresenceStatus::Online
    }
}

/// The word that names a status.
pub open spec fn status_word(s: PresenceStatus) -> Seq<char> {
    match s {
        PresenceStatus::Online => "online"@,
        PresenceStatus::Away => "away"@,
        PresenceStatus::Busy => "busy"@,
    }
}

impl PresenceStatus {
    /// The word that names the status.
    pub fn as_str(&self) -> (t: &'static str)
        ensures
            t@ == status_word(*self),
    {
        match self {
            PresenceStatus::Online => "online",
            PresenceStatus::Away => "away",
            PresenceStatus::Busy => "busy",
        }
    }
}

/// The status a chat message asks for: `/status online`, `/status away` or
/// `/status busy`, surrounding white space ignored.
pub open spec fn status_command(text: Seq<char>) -> Option<PresenceStatus> {
    let t = trimmed(text);
    if t == "/status online"@ {
        Some(PresenceStatus::Online)
    } else if t == "/status away"@ {
        Some(PresenceStatus::Away)
    } else if t == "/status busy"@ {
        Some(PresenceStatus::Busy)
    } else {
        None
    }
}

/// Parses a status change command.
pub fn parse_status_command(text: &str) -> (s: Option<PresenceStatus>)
    ensures
        s == status_command(text@),
{
    if trim_equals(text, "/status online") {
        Some(PresenceStatus::Online)
    } else if trim_equals(text, "/status away") {
        Some(PresenceStatus::Away)
    } else if trim_equals(text, "/status busy") {
        Some(PresenceStatus::Busy)
    } else {
        None
    }
}

/// The decimal digit character for `d < 10`.
pub open spec fn digit_char(d: nat) -> char {
    if d == 0 {
        '0'
    } else if d == 1 {
        '1'
    } else if d == 2 {
        '2'
    } else if d == 3 {
        '3'
    } else if d == 4 {
        '4'
    } else if d == 5 {
        '5'
    } else if d == 6 {
        '6'
    } else if d == 7 {
        '7'
    } else if d == 8 {
        '8'
    } else {
        '9'
    }
}

/// Decimal notation of `n`, as `{}` formats an unsigned integer.
pub open spec fn decimal(n: nat) -> Seq<char>
    decreases n,
{
    if n < 10 {
        seq![digit_char(n)]
    } else {
        decimal(n / 10).push(digit_char(n % 10))
    }
}

fn push_decimal(s: &mut String, n: u64)
    ensures
        final(s)@ == old(s)@ + decimal(n as nat),
    decreases n,
{
    if n >= 10 {
        push_decimal(s, n / 10);
    }
    let d = (n % 10) as usize;
    let digits = "0123456789";
    proof {
        reveal_strlit("0123456789");
    }
    let one = digits.substring_char(d, d + 1);
    assert(one@ =~= seq![digit_char(d as nat)]);
    let ghost before = s@;
    s.append(one);
    assert(s@ =~= old(s)@ + decimal(n as nat));
}

/// The notice broadcast when a client's status changes: its id and the status word.
pub fn announcement(client_id: u64, status: PresenceStatus) -> (t: String)
    ensures
        t@ == decimal(client_id as nat) + " "@ + status_word(status),
{
    let mut t = String::new();
    push_decimal(&mut t, client_id);
    t.append(" ");
    t.append(status.as_str());
    t
}

/// The status of every online client, by client id.
pub struct PresenceMap {
    map: HashMap<u64, PresenceStatus>,
}

impl View for PresenceMap {
    type V = Map<u64, PresenceStatus>;

    closed spec fn view(&self) -> Map<u64, PresenceStatus> {
        self.map@
    }
}

impl PresenceMap {
    /// No client online.
    pub fn new() -> (m: Self)
        ensures
            m@ == Map::<u64, PresenceStatus>::empty(),
    {
        PresenceMap { map: HashMap::new() }
    }

    /// Records a client's new status.
    pub fn record(&mut self, client_id: u64, status: PresenceStatus)
        ensures
            final(self)@ == old(self)@.insert(client_id, status),
    {
        self.map.insert(client_id, status);
    }

    /// Forgets a disconnected client.
    pub fn forget(&mut self, client_id: u64)
        ensures
            final(self)@ == old(self)@.remove(client_id),
    {
        self.map.remove(&client_id);
    }

    /// The status of a client, if online.
    pub fn status_of(&self, client_id: u64) -> (s: Option<PresenceStatus>)
        ensures
            s == (if self@.contains_key(client_id) { Some(self@[client_id]) } else { None::<PresenceStatus> }),
    {
        match self.map.get(&client_id) {
            Some(s) => Some(*s),
            None => None,
        }
    }
}

/// The command a client sends to take on status `s`.
pub open spec fn command_text(s: PresenceStatus) -> Seq<char> {
    "/status "@ + status_word(s)
}

/// Every status change command is understood as the status it names, whatever
/// white space surrounds it.
pub proof fn law_status_command_roundtrip(s: PresenceStatus, lead: Seq<char>, trail: Seq<char>)
    requires
        all_white_space(lead),
        all_white_space(trail),
    ensures
        status_command(lead + command_text(s) + trail) == Some(s),
{
    reveal_strlit("/status ");
    reveal_strlit("online");
    reveal_strlit("away");
    reveal_strlit("busy");
    reveal_strlit("/status online");
    reveal_strlit("/status away");
    reveal_strlit("/status busy");
    let t = command_text(s);
    assert(t[0] == '/');
    lemma_trimmed_padded(lead, t, trail);
    assert("/status online"@ != "/status away"@) by {
        assert("/status online"@.len() != "/status away"@.len());
    }
    assert("/status online"@ != "/status busy"@) by {
        assert("/status online"@[8] != "/status busy"@[8]);
    }
    assert("/status away"@ != "/status busy"@) by {
        assert("/status away"@[8] != "/status busy"@[8]);
    }
    match s {
        PresenceStatus::Online => {
            assert(t =~= "/status online"@);
        },
        PresenceStatus::Away => {
            assert(t =~= "/status away"@);
        },
        PresenceStatus::Busy => {
            assert(t =~= "/status busy"@);
        },
    }
}

/// A recorded status reads back until it is overwritten or the client leaves;
/// other clients are unaffected.
pub proof fn law_presence_read_after_write(m: Map<u64, PresenceStatus>, id: u64, other: u64, s: PresenceStatus)
    ensures
        m.insert(id, s)[id] == s,
        !m.insert(id, s).remove(id).contains_key(id),
        other != id ==> m.insert(id, s).contains_key(other) == m.contains_key(other),
        other != id && m.contains_key(other) ==> m.insert(id, s)[other] == m[other],
        other != id ==> m.remove(id).contains_key(other) == m.contains_key(other),
{
}

/// Only a status command is one: a text is read as status `s` only when,
/// trimmed, it is exactly `/status ` followed by the word for `s`; any other
/// text (an ordinary chat message) changes no status.
pub proof fn law_only_commands_change_status(text: Seq<char>, s: PresenceStatus)
    ensures
        status_command(text) == Some(s) ==> trimmed(text) == "/status "@ + status_word(s),
        trimmed(text) != "/status "@ + "online"@ && trimmed(text) != "/status "@ + "away"@ && trimmed(text)
            != "/status "@ + "busy"@ ==> status_command(text) is None,
{
    reveal_strlit("/status ");
    reveal_strlit("online");
    reveal_strlit("away");
    reveal_strlit("busy");
    reveal_strlit("/status online");
    reveal_strlit("/status away");
    reveal_strlit("/status busy");
    assert("/status "@ + "online"@ =~= "/status online"@);
    assert("/status "@ + "away"@ =~= "/status away"@);
    assert("/status "@ + "busy"@ =~= "/status busy"@);
}

} // verus!
