//! The daemon's protocol: which player command a request line names, and the
//! JSON line it is answered with.
use vstd::prelude::*;
use crate::player::{CommandView, PlayerCommand};
use crate::text::{digits_of, owned, push_unsigned, starts_with, str_equals, str_starts_with, views};

verus! {

/// A request to the daemon, as read from its JSON line. A speed, the one
/// field not kept here, is read by the caller.
pub struct DaemonCmd {
    pub cmd: String,
    pub tracks: Vec<String>,
    pub titles: Vec<String>,
    pub episode_ids: Vec<i64>,
}

/// What a request comes to.
pub enum Dispatch {
    /// Answer at once with this line.
    Reply(String),
    /// Hand this command to the player, then answer with this line.
    Send(PlayerCommand, String),
    /// Ask the player for its status and answer with it.
    QueryStatus,
    /// Set the playback speed from the request's speed.
    SetSpeed,
}

pub enum DispatchView {
    Reply(Seq<char>),
    Send(CommandView, Seq<char>),
    QueryStatus,
    SetSpeed,
}

impl Dispatch {
    pub open spec fn view(&self) -> DispatchView {
        match self {
            Dispatch::Reply(s) => DispatchView::Reply(s@),
            Dispatch::Send(c, s) => DispatchView::Send(c@, s@),
            Dispatch::QueryStatus => DispatchView::QueryStatus,
            Dispatch::SetSpeed => DispatchView::SetSpeed,
        }
    }
}

/// The answer and command of each request name.
pub open spec fn dispatch_spec(
    cmd: Seq<char>,
    tracks: Seq<Seq<char>>,
    titles: Seq<Seq<char>>,
    ids: Seq<i64>,
) -> DispatchView {
    if cmd == "play"@ {
        if tracks.len() == 0 {
            DispatchView::Reply("{\"error\":\"no tracks provided\"}"@)
        } else {
            DispatchView::Send(
                CommandView::Play { tracks, titles, episode_ids: ids },
                "{\"ok\":true,\"action\":\"playing\",\"tracks\":"@ + digits_of(tracks.len()) + "}"@,
            )
        }
    } else if cmd == "pause"@ {
        DispatchView::Send(CommandView::Pause, "{\"ok\":true,\"action\":\"paused\"}"@)
    } else if cmd == "resume"@ {
        DispatchView::Send(CommandView::Resume, "{\"ok\":true,\"action\":\"resumed\"}"@)
    } else if cmd == "next"@ {
        DispatchView::Send(CommandView::Next, "{\"ok\":true,\"action\":\"next\"}"@)
    } else if cmd == "previous"@ {
        DispatchView::Send(CommandView::Previous, "{\"ok\":true,\"action\":\"previous\"}"@)
    } else if cmd == "stop"@ {
        DispatchView::Send(CommandView::Stop, "{\"ok\":true,\"action\":\"stopped\"}"@)
    } else if cmd == "status"@ {
        DispatchView::QueryStatus
    } else if cmd == "set_speed"@ {
        DispatchView::SetSpeed
    } else {
        DispatchView::Reply("{\"error\":\"unknown command: "@ + cmd + "\"}"@)
    }
}

/// Each request name hands the player its own command, and no other name
/// does: "next" the Next command, "previous" Previous, "pause" Pause, "resume"
/// Resume, "stop" Stop, and "play" with tracks a Play of exactly those tracks,
/// titles and episode ids; "status" asks for the status and "set_speed" sets
/// the speed.
pub proof fn law_dispatch_names_its_command(
    cmd: Seq<char>,
    tracks: Seq<Seq<char>>,
    titles: Seq<Seq<char>>,
    ids: Seq<i64>,
)
    ensures
        (dispatch_spec(cmd, tracks, titles, ids) matches DispatchView::Send(CommandView::Next, _)) <==> cmd
            == "next"@,
        (dispatch_spec(cmd, tracks, titles, ids) matches DispatchView::Send(CommandView::Previous, _)) <==> cmd
            == "previous"@,
        (dispatch_spec(cmd, tracks, titles, ids) matches DispatchView::Send(CommandView::Pause, _)) <==> cmd
            == "pause"@,
        (dispatch_spec(cmd, tracks, titles, ids) matches DispatchView::Send(CommandView::Resume, _)) <==> cmd
            == "resume"@,
        (dispatch_spec(cmd, tracks, titles, ids) matches DispatchView::Send(CommandView::Stop, _)) <==> cmd
            == "stop"@,
        (dispatch_spec(cmd, tracks, titles, ids) matches DispatchView::Send(CommandView::Play { .. }, _)) <==> (cmd
            == "play"@ && tracks.len() > 0),
        cmd == "play"@ && tracks.len() > 0 ==> dispatch_spec(cmd, tracks, titles, ids) == DispatchView::Send(
            CommandView::Play { tracks, titles, episode_ids: ids },
            "{\"ok\":true,\"action\":\"playing\",\"tracks\":"@ + digits_of(tracks.len()) + "}"@,
        ),
        (dispatch_spec(cmd, tracks, titles, ids) is QueryStatus) <==> cmd == "status"@,
        (dispatch_spec(cmd, tracks, titles, ids) is SetSpeed) <==> cmd == "set_speed"@,
{
    reveal_strlit("play");
    reveal_strlit("pause");
    reveal_strlit("resume");
    reveal_strlit("next");
    reveal_strlit("previous");
    reveal_strlit("stop");
    reveal_strlit("status");
    reveal_strlit("set_speed");
    assert("play"@[1] != "pause"@[1]);
    assert("play"@[0] != "resume"@[0]);
    assert("play"@[0] != "next"@[0]);
    assert("play"@[1] != "previous"@[1]);
    assert("play"@[0] != "stop"@[0]);
    assert("play"@[0] != "status"@[0]);
    assert("play"@[0] != "set_speed"@[0]);
    assert("pause"@[0] != "resume"@[0]);
    assert("pause"@[0] != "next"@[0]);
    assert("pause"@[1] != "previous"@[1]);
    assert("pause"@[0] != "stop"@[0]);
    assert("pause"@[0] != "status"@[0]);
    assert("pause"@[0] != "set_speed"@[0]);
    assert("resume"@[0] != "next"@[0]);
    assert("resume"@[0] != "previous"@[0]);
    assert("resume"@[0] != "stop"@[0]);
    assert("resume"@[0] != "status"@[0]);
    assert("resume"@[0] != "set_speed"@[0]);
    assert("next"@[0] != "previous"@[0]);
    assert("next"@[0] != "stop"@[0]);
    assert("next"@[0] != "status"@[0]);
    assert("next"@[0] != "set_speed"@[0]);
    assert("previous"@[0] != "stop"@[0]);
    assert("previous"@[0] != "status"@[0]);
    assert("previous"@[0] != "set_speed"@[0]);
    assert("stop"@[2] != "status"@[2]);
    assert("stop"@[1] != "set_speed"@[1]);
    assert("status"@[1] != "set_speed"@[1]);
}

/// Decides what a request does and how it is answered.
pub fn dispatch(req: DaemonCmd) -> (d: Dispatch)
    ensures
        d@ == dispatch_spec(req.cmd@, views(req.tracks@), views(req.titles@), req.episode_ids@),
{
    let name = req.cmd.as_str();
    if str_equals(name, "play") {
        if req.tracks.len() == 0 {
            return Dispatch::Reply(owned("{\"error\":\"no tracks provided\"}"));
        }
        let mut line = owned("{\"ok\":true,\"action\":\"playing\",\"tracks\":");
        push_unsigned(&mut line, req.tracks.len() as u64);
        line.append("}");
        Dispatch::Send(
            PlayerCommand::Play { tracks: req.tracks, titles: req.titles, episode_ids: req.episode_ids },
            line,
        )
    } else if str_equals(name, "pause") {
        Dispatch::Send(PlayerCommand::Pause, owned("{\"ok\":true,\"action\":\"paused\"}"))
    } else if str_equals(name, "resume") {
        Dispatch::Send(PlayerCommand::Resume, owned("{\"ok\":true,\"action\":\"resumed\"}"))
    } else if str_equals(name, "next") {
        Dispatch::Send(PlayerCommand::Next, owned("{\"ok\":true,\"action\":\"next\"}"))
    } else if str_equals(name, "previous") {
        Dispatch::Send(PlayerCommand::Previous, owned("{\"ok\":true,\"action\":\"previous\"}"))
    } else if str_equals(name, "stop") {
        Dispatch::Send(PlayerCommand::Stop, owned("{\"ok\":true,\"action\":\"stopped\"}"))
    } else if str_equals(name, "status") {
        Dispatch::QueryStatus
    } else if str_equals(name, "set_speed") {
        Dispatch::SetSpeed
    } else {
        let mut line = owned("{\"error\":\"unknown command: ");
        line.append(name);
        line.append("\"}");
        Dispatch::Reply(line)
    }
}

/// A request line that is not a command is answered with the reason.
pub fn invalid_command_reply(reason: &str) -> (r: String)
    ensures
        r@ == "{\"error\":\"invalid command: "@ + reason@ + "\"}"@,
{
    let mut line = owned("{\"error\":\"invalid command: ");
    line.append(reason);
    line.append("\"}");
    line
}

/// The answer when the player does not report its status in time.
pub fn not_responding_reply() -> (r: String)
    ensures
        r@ == "{\"error\":\"player not responding\"}"@,
{
    owned("{\"error\":\"player not responding\"}")
}

/// The line a client sends for a command: a JSON object as it is, else
/// `{"cmd":"<cmd>"}`.
pub fn client_message(cmd: &str) -> (r: String)
    ensures
        r@ == if starts_with(cmd@, "{"@) {
            cmd@
        } else {
            "{\"cmd\":\""@ + cmd@ + "\"}"@
        },
{
    if str_starts_with(cmd, "{") {
        owned(cmd)
    } else {
        let mut line = owned("{\"cmd\":\"");
        line.append(cmd);
        line.append("\"}");
        line
    }
}

} // verus!
