//! Presence Tracker: follows a designated participant across channels and
//! classifies disruptive roster events.
//!
//! The voice session's connection loop feeds roster snapshots and events in;
//! the tracker answers with "move self to this channel" commands and with a
//! kick classification that tells the supervisor whether to shut down.

use vstd::prelude::*;

verus! {

/// Classification of a roster disruption: `Server` is fatal (the bot itself
/// was removed), `Channel` only forces a re-evaluation, `Reset` is the
/// neutral answer for everything else.
#[derive(Clone, Copy, Debug, PartialEq, Eq, Structural)]
pub enum KickEvent {
    Reset,
    Server,
    Channel,
}

/// One roster or session event, reduced to the parts classification reads.
#[derive(Clone, Copy, Debug, PartialEq, Eq, Structural)]
pub enum RosterEvent {
    /// A participant's roster entry was removed.
    ClientRemoved { client: u64 },
    /// A participant's channel property changed; `has_invoker` tells whether
    /// some other participant caused the change.
    ChannelChanged { client: u64, has_invoker: bool },
    /// Any other roster churn.
    Other,
}

/// What one event means for the bot whose volatile id is `own`: a removal
/// of the bot itself is a server kick, any other removal resets the scan; a
/// channel change without an invoker resets, one on the bot itself is a
/// channel kick; everything else is passed over.
pub open spec fn classify_one(own: u64, ev: RosterEvent) -> Option<KickEvent> {
    match ev {
        RosterEvent::ClientRemoved { client } => if client == own {
            Some(KickEvent::Server)
        } else {
            Some(KickEvent::Reset)
        },
        RosterEvent::ChannelChanged { client, has_invoker } => if !has_invoker {
            Some(KickEvent::Reset)
        } else if client == own {
            Some(KickEvent::Channel)
        } else {
            None
        },
        RosterEvent::Other => None,
    }
}

/// The classification of a whole event batch: the first event that decides
/// wins; a batch in which none decides is `Reset`.
pub open spec fn classify_events(own: u64, evs: Seq<RosterEvent>) -> KickEvent
    decreases evs.len(),
{
    if evs.len() == 0 {
        KickEvent::Reset
    } else {
        match classify_one(own, evs[0]) {
            Some(k) => k,
            None => classify_events(own, evs.drop_first()),
        }
    }
}

/// Classify an event batch against the bot's own volatile id.
pub fn check_is_kick_event(client_id: u64, events: &Vec<RosterEvent>) -> (r: KickEvent)
    ensures
        r == classify_events(client_id, events@),
{
    let mut i: usize = 0;
    proof {
        assert(events@.skip(0) =~= events@);
    }
    while i < events.len()
        invariant
            i <= events.len(),
            classify_events(client_id, events@) == classify_events(
                client_id,
                events@.skip(i as int),
            ),
        decreases events.len() - i,
    {
        proof {
            assert(events@.skip(i as int).drop_first() =~= events@.skip(i as int + 1));
            assert(events@.skip(i as int)[0] == events@[i as int]);
        }
        match events[i] {
            RosterEvent::ClientRemoved { client } => {
                if client == client_id {
                    return KickEvent::Server;
                }
                return KickEvent::Reset;
            },
            RosterEvent::ChannelChanged { client, has_invoker } => {
                if !has_invoker {
                    return KickEvent::Reset;
                }
                if client == client_id {
                    return KickEvent::Channel;
                }
            },
            RosterEvent::Other => {},
        }
        i += 1;
    }
    proof {
        assert(events@.skip(events@.len() as int) =~= Seq::<RosterEvent>::empty());
    }
    KickEvent::Reset
}

/// One participant as the session's live roster shows it.
#[derive(Clone, Copy, Debug, PartialEq, Eq, Structural)]
pub struct RosterEntry {
    /// The session-scoped volatile id.
    pub client: u64,
    /// The channel the participant is in.
    pub channel: u64,
    /// The persistent identity that survives reconnects.
    pub database_id: u64,
}

/// The session roster: the bot's own volatile id and every participant.
pub struct Roster {
    pub own_client: u64,
    pub clients: Vec<RosterEntry>,
}

/// The first roster entry with volatile id `id`, if any.
pub open spec fn find_by_client(clients: Seq<RosterEntry>, id: u64) -> Option<RosterEntry>
    decreases clients.len(),
{
    if clients.len() == 0 {
        None
    } else if clients[0].client == id {
        Some(clients[0])
    } else {
        find_by_client(clients.drop_first(), id)
    }
}

/// The first roster entry with persistent identity `dbid`, if any.
pub open spec fn find_by_database(clients: Seq<RosterEntry>, dbid: u64) -> Option<RosterEntry>
    decreases clients.len(),
{
    if clients.len() == 0 {
        None
    } else if clients[0].database_id == dbid {
        Some(clients[0])
    } else {
        find_by_database(clients.drop_first(), dbid)
    }
}

/// A command to the voice session: move participant `client` (always the
/// bot itself here) to `channel`.
#[derive(Clone, Copy, Debug, PartialEq, Eq, Structural)]
pub struct MoveCommand {
    pub client: u64,
    pub channel: u64,
}

/// What a re-evaluation found: the target's volatile id, the channel to
/// mirror, and the move command to issue.
#[derive(Clone, Copy, Debug, PartialEq, Eq, Structural)]
pub struct MoveDecision {
    pub found_client: u64,
    pub channel: u64,
    pub command: MoveCommand,
}

/// Which participant and channel a re-evaluation settles on, if any: no
/// answer without a follow target, an empty roster, or an unknown own
/// channel; otherwise the cached volatile id is tried first, then the
/// roster is scanned for the persistent identity; a target already in the
/// bot's channel needs no move.
pub open spec fn find_spec(
    current_channel: Option<u64>,
    own: u64,
    clients: Seq<RosterEntry>,
    target_client: Option<u64>,
    interest: Option<u64>,
) -> Option<(u64, u64)> {
    if interest is None || clients.len() == 0 {
        None
    } else {
        let cur = match current_channel {
            Some(c) => Some(c),
            None => match find_by_client(clients, own) {
                Some(e) => Some(e.channel),
                None => None,
            },
        };
        match cur {
            None => None,
            Some(cc) => {
                let cached = match target_client {
                    Some(tid) => find_by_client(clients, tid),
                    None => None,
                };
                match cached {
                    Some(e) => if e.channel == cc {
                        None
                    } else {
                        Some((e.client, e.channel))
                    },
                    None => match find_by_database(clients, interest->0) {
                        Some(e) => if e.channel == cc {
                            None
                        } else {
                            Some((e.client, e.channel))
                        },
                        None => None,
                    },
                }
            },
        }
    }
}

/// The first entry with volatile id `id`.
fn lookup_client(clients: &Vec<RosterEntry>, id: u64) -> (r: Option<RosterEntry>)
    ensures
        r == find_by_client(clients@, id),
{
    let mut i: usize = 0;
    proof {
        assert(clients@.skip(0) =~= clients@);
    }
    while i < clients.len()
        invariant
            i <= clients.len(),
            find_by_client(clients@, id) == find_by_client(clients@.skip(i as int), id),
        decreases clients.len() - i,
    {
        proof {
            assert(clients@.skip(i as int).drop_first() =~= clients@.skip(i as int + 1));
            assert(clients@.skip(i as int)[0] == clients@[i as int]);
        }
        if clients[i].client == id {
            return Some(clients[i]);
        }
        i += 1;
    }
    proof {
        assert(clients@.skip(clients@.len() as int) =~= Seq::<RosterEntry>::empty());
    }
    None
}

/// The first entry with persistent identity `dbid`.
fn lookup_database(clients: &Vec<RosterEntry>, dbid: u64) -> (r: Option<RosterEntry>)
    ensures
        r == find_by_database(clients@, dbid),
{
    let mut i: usize = 0;
    proof {
        assert(clients@.skip(0) =~= clients@);
    }
    while i < clients.len()
        invariant
            i <= clients.len(),
            find_by_database(clients@, dbid) == find_by_database(clients@.skip(i as int), dbid),
        decreases clients.len() - i,
    {
        proof {
            assert(clients@.skip(i as int).drop_first() =~= clients@.skip(i as int + 1));
            assert(clients@.skip(i as int)[0] == clients@[i as int]);
        }
        if clients[i].database_id == dbid {
            return Some(clients[i]);
        }
        i += 1;
    }
    proof {
        assert(clients@.skip(clients@.len() as int) =~= Seq::<RosterEntry>::empty());
    }
    None
}

/// One re-evaluation against the live roster. `current_channel` is the
/// bot's cached channel (re-read from the roster when absent),
/// `target_client` the cached volatile id of the target, `interest` the
/// persistent identity being followed. The returned decision carries the
/// move command for the bot itself.
pub fn find_self_and_target(
    current_channel: Option<u64>,
    roster: &Roster,
    target_client: Option<u64>,
    interest: Option<u64>,
) -> (r: Option<MoveDecision>)
    ensures
        match find_spec(current_channel, roster.own_client, roster.clients@, target_client, interest) {
            Some(p) => r matches Some(d) && d.found_client == p.0 && d.channel == p.1 && d.command
                == (MoveCommand { client: roster.own_client, channel: p.1 }),
            None => r is None,
        },
{
    if interest.is_none() || roster.clients.len() == 0 {
        return None;
    }

    let current_user = roster.own_client;

    let cur = match current_channel {
        Some(c) => Some(c),
        None => match lookup_client(&roster.clients, current_user) {
            Some(e) => Some(e.channel),
            None => None,
        },
    };
    let cc = match cur {
        Some(cc) => cc,
        None => {
            return None;
        },
    };

    let cached = match target_client {
        Some(tid) => lookup_client(&roster.clients, tid),
        None => None,
    };
    if let Some(e) = cached {
        if e.channel == cc {
            return None;
        }
        return Some(
            MoveDecision {
                found_client: e.client,
                channel: e.channel,
                command: MoveCommand { client: current_user, channel: e.channel },
            },
        );
    }

    let interest_db_id = match interest {
        Some(d) => d,
        None => {
            return None;
        },
    };
    match lookup_database(&roster.clients, interest_db_id) {
        Some(e) => {
            if e.channel == cc {
                return None;
            }
            Some(
                MoveDecision {
                    found_client: e.client,
                    channel: e.channel,
                    command: MoveCommand { client: current_user, channel: e.channel },
                },
            )
        },
        None => None,
    }
}

/// The tracker's state: the persistent identity being followed (`None`
/// means untracked), the cached volatile id, the cached channel, and
/// whether the next trigger must re-evaluate.
pub struct PresenceTracker {
    pub target_identity: Option<u64>,
    pub last_known_transient_id: Option<u64>,
    pub current_channel: Option<u64>,
    pub needs_refresh: bool,
}

impl PresenceTracker {
    /// Start tracking `target` (or nothing); the first trigger evaluates.
    pub fn new(target: Option<u64>) -> (r: PresenceTracker)
        ensures
            r.target_identity == target,
            r.last_known_transient_id is None,
            r.current_channel is None,
            r.needs_refresh,
    {
        PresenceTracker {
            target_identity: target,
            last_known_transient_id: None,
            current_channel: None,
            needs_refresh: true,
        }
    }

    /// The coarse resync timer fired: discard the cached channel so the next
    /// evaluation re-reads it from the roster.
    pub fn on_timer_tick(&mut self)
        ensures
            final(self).target_identity == old(self).target_identity,
            final(self).last_known_transient_id == old(self).last_known_transient_id,
            final(self).current_channel is None,
            final(self).needs_refresh,
    {
        self.current_channel = None;
        self.needs_refresh = true;
    }

    /// The session's roster or messages changed: re-evaluate on the next
    /// trigger, keeping the caches.
    pub fn on_roster_notify(&mut self)
        ensures
            final(self).target_identity == old(self).target_identity,
            final(self).last_known_transient_id == old(self).last_known_transient_id,
            final(self).current_channel == old(self).current_channel,
            final(self).needs_refresh,
    {
        self.needs_refresh = true;
    }

    /// React to a kick classification. Returns true exactly for a server
    /// kick, which the supervisor treats as the shutdown signal; a channel
    /// kick only discards the cached channel and forces a re-evaluation.
    pub fn on_kick(&mut self, kick: KickEvent) -> (fatal: bool)
        ensures
            fatal == (kick == KickEvent::Server),
            final(self).target_identity == old(self).target_identity,
            final(self).last_known_transient_id == old(self).last_known_transient_id,
            kick == KickEvent::Channel ==> final(self).current_channel is None
                && final(self).needs_refresh,
            kick != KickEvent::Channel ==> final(self).current_channel == old(self).current_channel
                && final(self).needs_refresh == old(self).needs_refresh,
    {
        match kick {
            KickEvent::Server => true,
            KickEvent::Channel => {
                self.current_channel = None;
                self.needs_refresh = true;
                false
            },
            KickEvent::Reset => false,
        }
    }

    /// Re-evaluate against the live roster when a trigger is pending: find
    /// the target (by cached volatile id first, then by persistent
    /// identity), cache what was found, and hand back the move command to
    /// issue, if the target sits in another channel.
    pub fn evaluate(&mut self, roster: &Roster) -> (r: Option<MoveCommand>)
        ensures
            !(old(self).needs_refresh && old(self).target_identity is Some) ==> r is None
                && *final(self) == *old(self),
            old(self).needs_refresh && old(self).target_identity is Some ==> {
                &&& final(self).target_identity == old(self).target_identity
                &&& !final(self).needs_refresh
                &&& match find_spec(
                    old(self).current_channel,
                    roster.own_client,
                    roster.clients@,
                    old(self).last_known_transient_id,
                    old(self).target_identity,
                ) {
                    Some(p) => {
                        &&& r == Some(MoveCommand { client: roster.own_client, channel: p.1 })
                        &&& final(self).last_known_transient_id == Some(p.0)
                        &&& final(self).current_channel == Some(p.1)
                    },
                    None => {
                        &&& r is None
                        &&& final(self).last_known_transient_id == old(self).last_known_transient_id
                        &&& final(self).current_channel == old(self).current_channel
                    },
                }
            },
    {
        if !self.needs_refresh || self.target_identity.is_none() {
            return None;
        }
        self.needs_refresh = false;
        match find_self_and_target(
            self.current_channel,
            roster,
            self.last_known_transient_id,
            self.target_identity,
        ) {
            Some(d) => {
                self.last_known_transient_id = Some(d.found_client);
                self.current_channel = Some(d.channel);
                Some(d.command)
            },
            None => None,
        }
    }
}

/// Presence re-acquisition: when the target's volatile id has changed (the
/// cached id is nowhere in the roster) but an entry still carries the
/// followed persistent identity, and that entry sits in another channel
/// than the bot, one evaluation settles on exactly that entry — so
/// `evaluate` issues the move to its channel and caches its new volatile
/// id.
pub proof fn lemma_presence_reacquisition(
    cc: u64,
    own: u64,
    clients: Seq<RosterEntry>,
    old_id: u64,
    dbid: u64,
    entry: RosterEntry,
)
    requires
        clients.len() > 0,
        find_by_client(clients, old_id) is None,
        find_by_database(clients, dbid) == Some(entry),
        entry.channel != cc,
    ensures
        find_spec(Some(cc), own, clients, Some(old_id), Some(dbid)) == Some(
            (entry.client, entry.channel),
        ),
{
}

} // verus!
