//! The two ends of a connection: the server, which runs one session on its
//! own standard input and output, and the client, which opens a tunnel to
//! the server, runs a session over it, and opens a new one whenever a
//! session ends.
use vstd::prelude::*;
use crate::session::{fresh, EndReason, Role, Session, SessionState, Timing};
use crate::text::{chars_of, push_char};

verus! {

/// The program that opens the tunnel.
pub const TUNNEL_PROGRAM: &'static str = "ssh";

/// The commands a server reads and writes its clipboard with.
#[derive(Debug, Clone)]
pub struct ServerCmd {
    pub write_clipboard_cmd: String,
    pub read_clipboard_cmd: String,
}

/// Where a client connects to, and the commands on either end.
#[derive(Debug, Clone)]
pub struct ClientCmd {
    /// The host to open the tunnel to.
    pub host: String,
    /// Extra arguments for the tunnel program, separated by spaces.
    pub ssh_args: String,
    pub write_clipboard_cmd: String,
    pub read_clipboard_cmd: String,
    /// How the server is started on the remote host.
    pub remote_server_cmd: String,
    pub remote_write_clipboard_cmd: String,
    pub remote_read_clipboard_cmd: String,
}

/// The shells that completion scripts are written for.
#[derive(Debug, Clone, Copy, PartialEq, Eq, Structural)]
pub enum Shell {
    Bash,
    Zsh,
    Fish,
}

impl Shell {
    /// The name under which the shell is chosen on the command line.
    pub fn name(self) -> (r: &'static str)
        ensures
            self == Shell::Bash ==> r@ == "complete-bash"@,
            self == Shell::Zsh ==> r@ == "complete-zsh"@,
            self == Shell::Fish ==> r@ == "complete-fish"@,
    {
        match self {
            Shell::Bash => "complete-bash",
            Shell::Zsh => "complete-zsh",
            Shell::Fish => "complete-fish",
        }
    }
}

/// The responding end.
pub struct Server {
    pub cmd: ServerCmd,
    pub timing: Timing,
}

impl Server {
    /// A server with the standard timing.
    pub fn new(cmd: ServerCmd) -> (r: Server)
        ensures
            r.cmd == cmd,
            r.timing == Timing::standard_model(),
    {
        Server { cmd, timing: Timing::standard() }
    }

    /// The one session of this server, which starts at `now`. It answers
    /// pings and acknowledges clipboard updates.
    pub fn start_session(&self, now: u64) -> (r: Session)
        ensures
            r@ == fresh(Role::Responder, true, self.timing, now),
    {
        Session::new(Role::Responder, true, self.timing, now)
    }
}

/// The initiating end.
pub struct Client {
    pub cmd: ClientCmd,
    pub timing: Timing,
}

/// The words of `s` separated by spaces, with the words seen so far and the
/// one still open; runs of spaces separate no empty words.
pub open spec fn split_spaces(s: Seq<char>) -> (Seq<Seq<char>>, Seq<char>)
    decreases s.len(),
{
    if s.len() == 0 {
        (Seq::empty(), Seq::empty())
    } else {
        let (done, open) = split_spaces(s.drop_last());
        if s.last() != ' ' {
            (done, open.push(s.last()))
        } else if open.len() > 0 {
            (done.push(open), Seq::empty())
        } else {
            (done, Seq::empty())
        }
    }
}

/// The non-empty words of `s` separated by spaces.
pub open spec fn space_words(s: Seq<char>) -> Seq<Seq<char>> {
    let (done, open) = split_spaces(s);
    if open.len() > 0 {
        done.push(open)
    } else {
        done
    }
}

/// The command that starts the server on the remote host:
/// `<server> server --write-clipboard-cmd '<write>' --read-clipboard-cmd '<read>'`.
pub open spec fn remote_command(server: Seq<char>, write: Seq<char>, read: Seq<char>) -> Seq<char> {
    server + " server --write-clipboard-cmd '"@ + write + "' --read-clipboard-cmd '"@ + read + "'"@
}

impl Client {
    /// A client with the standard timing.
    pub fn new(cmd: ClientCmd) -> (r: Client)
        ensures
            r.cmd == cmd,
            r.timing == Timing::standard_model(),
    {
        Client { cmd, timing: Timing::standard() }
    }

    /// The arguments of the tunnel program: the extra arguments, the host,
    /// `--`, and the command that starts the server on the remote host.
    pub fn tunnel_args(&self) -> (r: Vec<String>)
        ensures
            r@.map_values(|a: String| a@) == space_words(self.cmd.ssh_args@) + seq![
                self.cmd.host@,
                "--"@,
                remote_command(
                    self.cmd.remote_server_cmd@,
                    self.cmd.remote_write_clipboard_cmd@,
                    self.cmd.remote_read_clipboard_cmd@,
                ),
            ],
    {
        let mut args = split_on_spaces(self.cmd.ssh_args.as_str());
        let ghost words = args@.map_values(|a: String| a@);
        args.push(self.cmd.host.clone());
        args.push(String::from_str("--"));
        let mut remote = self.cmd.remote_server_cmd.clone();
        remote.append(" server --write-clipboard-cmd '");
        remote.append(self.cmd.remote_write_clipboard_cmd.as_str());
        remote.append("' --read-clipboard-cmd '");
        remote.append(self.cmd.remote_read_clipboard_cmd.as_str());
        remote.append("'");
        args.push(remote);
        assert(args@.map_values(|a: String| a@) =~= words + seq![
            self.cmd.host@,
            "--"@,
            remote_command(
                self.cmd.remote_server_cmd@,
                self.cmd.remote_write_clipboard_cmd@,
                self.cmd.remote_read_clipboard_cmd@,
            ),
        ]);
        args
    }

    /// A session over a tunnel that was opened at `now`. It pings, and
    /// ends when pongs stop coming.
    pub fn start_session(&self, now: u64) -> (r: Session)
        ensures
            r@ == fresh(Role::Initiator, false, self.timing, now),
    {
        Session::new(Role::Initiator, false, self.timing, now)
    }
}

/// The non-empty words of `s` separated by spaces.
pub fn split_on_spaces(s: &str) -> (r: Vec<String>)
    ensures
        r@.map_values(|a: String| a@) == space_words(s@),
{
    let v = chars_of(s);
    let mut done: Vec<String> = Vec::new();
    let mut open = String::new();
    let mut i: usize = 0;
    while i < v.len()
        invariant
            i <= v.len(),
            v@ == s@,
            (done@.map_values(|a: String| a@), open@) == split_spaces(v@.take(i as int)),
        decreases v.len() - i,
    {
        proof {
            assert(v@.take(i + 1).drop_last() =~= v@.take(i as int));
        }
        let c = v[i];
        if c != ' ' {
            push_char(&mut open, c);
        } else if !open.as_str().is_empty() {
            let ghost before = done@;
            done.push(open);
            open = String::new();
            assert(done@.map_values(|a: String| a@) =~= before.map_values(|a: String| a@).push(
                split_spaces(v@.take(i as int)).1,
            ));
        }
        i = i + 1;
    }
    assert(v@.take(i as int) =~= s@);
    if !open.as_str().is_empty() {
        let ghost before = done@;
        done.push(open);
        assert(done@.map_values(|a: String| a@) =~= before.map_values(|a: String| a@).push(
            split_spaces(s@).1,
        ));
    }
    done
}

/// When the client opens its next tunnel. There is no limit on the number
/// of attempts: the client keeps reconnecting until it is stopped.
pub struct Reconnect {
    backoff_ms: u64,
    next_attempt_at: u64,
    running: bool,
}

/// The mathematical value of a [`Reconnect`].
pub struct ReconnectModel {
    /// How long to wait after a session ended.
    pub backoff_ms: u64,
    /// The earliest time of the next attempt.
    pub next_attempt_at: u64,
    /// Whether a session runs now.
    pub running: bool,
}

impl View for Reconnect {
    type V = ReconnectModel;

    closed spec fn view(&self) -> ReconnectModel {
        ReconnectModel {
            backoff_ms: self.backoff_ms,
            next_attempt_at: self.next_attempt_at,
            running: self.running,
        }
    }
}

/// The moment one backoff interval after `t`, or the end of time.
pub open spec fn after_backoff(backoff_ms: u64, t: u64) -> u64 {
    if t + backoff_ms <= u64::MAX { (t + backoff_ms) as u64 } else { u64::MAX }
}

/// The state after a session ended at time `t`.
pub open spec fn ended_at(r: ReconnectModel, t: u64) -> ReconnectModel {
    ReconnectModel { next_attempt_at: after_backoff(r.backoff_ms, t), running: false, ..r }
}

/// Whether a new tunnel may be opened at time `t`.
pub open spec fn may_connect(r: ReconnectModel, t: u64) -> bool {
    !r.running && t >= r.next_attempt_at
}

/// How long, from `t`, until a new tunnel may be opened.
pub open spec fn wait_from(r: ReconnectModel, t: u64) -> u64 {
    if t >= r.next_attempt_at { 0 } else { (r.next_attempt_at - t) as u64 }
}

impl Reconnect {
    /// Nothing runs yet, and the first tunnel may be opened at once.
    pub fn new(timing: Timing, now: u64) -> (r: Reconnect)
        ensures
            r@ == (ReconnectModel { backoff_ms: timing.backoff_ms, next_attempt_at: now, running: false }),
    {
        Reconnect { backoff_ms: timing.backoff_ms, next_attempt_at: now, running: false }
    }

    /// How long to wait, from `now`, before the next tunnel is opened.
    pub fn wait(&self, now: u64) -> (r: u64)
        ensures
            r == wait_from(self@, now),
    {
        if now >= self.next_attempt_at {
            0
        } else {
            self.next_attempt_at - now
        }
    }

    /// Opens a session over a new tunnel at `now`, where that is due: a
    /// fresh session of `client`, which has observed nothing.
    pub fn connect(&mut self, client: &Client, now: u64) -> (r: Option<Session>)
        ensures
            r is Some <==> may_connect(old(self)@, now),
            r is Some ==> r->0@ == fresh(Role::Initiator, false, client.timing, now)
                && final(self)@ == (ReconnectModel { running: true, ..old(self)@ }),
            r is None ==> final(self)@ == old(self)@,
    {
        if self.running || now < self.next_attempt_at {
            return None;
        }
        self.running = true;
        Some(client.start_session(now))
    }

    /// The session that ran ended at `now`, for `reason`: the next tunnel
    /// is due one backoff interval later, whatever the reason.
    pub fn session_ended(&mut self, reason: EndReason, now: u64)
        ensures
            final(self)@ == ended_at(old(self)@, now),
    {
        self.running = false;
        self.next_attempt_at = if now <= u64::MAX - self.backoff_ms {
            now + self.backoff_ms
        } else {
            u64::MAX
        };
    }
}

/// After any end of a client's session, at time `t`, the client opens the
/// next tunnel exactly one backoff interval later, not before, and the
/// session it starts there has observed nothing.
pub proof fn lemma_reconnect(r: ReconnectModel, client_timing: Timing, t: u64, later: u64)
    requires
        t + r.backoff_ms <= u64::MAX,
    ensures
        wait_from(ended_at(r, t), t) == r.backoff_ms,
        may_connect(ended_at(r, t), later) <==> later >= t + r.backoff_ms,
        fresh(Role::Initiator, false, client_timing, later).last_clipboard == Seq::<char>::empty(),
        fresh(Role::Initiator, false, client_timing, later).state == SessionState::Active,
{
}

} // verus!
