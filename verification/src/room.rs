//! A game room: it buffers the controller frames pushed to it and, while its
//! game loop runs, flushes them to the room's players once per tick.
use vstd::prelude::*;
use crate::online_server::ClientMessage;
use crate::proto::{keyboard_json, SendParcel};

verus! {

/// Starts the room's game loop.
pub struct RoomStart;

/// Stops the room's game loop at its next tick.
pub struct RoomStop;

/// One frame of controller input to be sent with the next tick.
pub struct PushBuffer(pub Vec<u8>);

/// The state of a room as a mathematical value.
pub struct RoomView {
    /// The frames pushed since the last tick, oldest first.
    pub frames: Seq<Seq<u8>>,
    /// Whether the room knows its own address (set once the room has started).
    pub has_address: bool,
    pub name: Seq<char>,
    /// Whether the game loop is meant to run.
    pub running: bool,
}

pub struct Room {
    frame_buffer: Vec<Vec<u8>>,
    has_address: bool,
    name: String,
    running: bool,
}

impl View for Room {
    type V = RoomView;

    closed spec fn view(&self) -> RoomView {
        RoomView {
            frames: self.frame_buffer.deep_view(),
            has_address: self.has_address,
            name: self.name@,
            running: self.running,
        }
    }
}

/// The room after a start request.
pub open spec fn startup_spec(v: RoomView) -> RoomView {
    if !v.running && v.has_address {
        RoomView { running: true, ..v }
    } else {
        v
    }
}

/// Whether a start request launches a new game loop.
pub open spec fn startup_spawns(v: RoomView) -> bool {
    !v.running && v.has_address
}

/// The room after a stop request.
pub open spec fn stop_spec(v: RoomView) -> RoomView {
    RoomView { running: false, ..v }
}

/// The room after a frame has been pushed.
pub open spec fn push_spec(v: RoomView, frame: Seq<u8>) -> RoomView {
    RoomView { frames: v.frames.push(frame), ..v }
}

/// The room after a tick: the buffer is flushed.
pub open spec fn tick_spec(v: RoomView) -> RoomView {
    RoomView { frames: Seq::empty(), ..v }
}

/// What a tick answers the game loop: 1 to go on, -1 to end.
pub open spec fn tick_reply(v: RoomView) -> isize {
    if v.running {
        1isize
    } else {
        -1isize
    }
}

/// Whether the game loop goes on after the reply to a tick (`None` when the
/// room could not be reached).
pub open spec fn loop_continues(reply: Option<isize>) -> bool {
    match reply {
        Some(i) => i >= 0,
        None => false,
    }
}

/// The room after the frames `fs` have been pushed in order.
pub open spec fn push_all(v: RoomView, fs: Seq<Seq<u8>>) -> RoomView
    decreases fs.len(),
{
    if fs.len() == 0 {
        v
    } else {
        push_spec(push_all(v, fs.drop_last()), fs.last())
    }
}

/// A tick empties the frame buffer and changes nothing else: the room keeps
/// its name, so every tick's message goes to the same room, and keeps its
/// address and running flag.
pub proof fn lemma_tick_keeps_room(v: RoomView)
    ensures
        tick_spec(v).frames.len() == 0,
        tick_spec(v).name == v.name,
        tick_spec(v).has_address == v.has_address,
        tick_spec(v).running == v.running,
        tick_spec(tick_spec(v)).name == v.name,
{
}

/// A start request changes only the running flag: the frames waiting, the
/// name and the address stay; the room runs afterwards iff it ran before or
/// knows its address.
pub proof fn lemma_start_changes_only_running(v: RoomView)
    ensures
        startup_spec(v).frames == v.frames,
        startup_spec(v).name == v.name,
        startup_spec(v).has_address == v.has_address,
        startup_spec(v).running == (v.running || v.has_address),
{
}

/// A stop request changes only the running flag: the frames waiting before
/// it are still there for the next tick, which sends them and ends the loop.
pub proof fn lemma_stop_changes_only_running(v: RoomView)
    ensures
        stop_spec(v).frames == v.frames,
        stop_spec(v).name == v.name,
        stop_spec(v).has_address == v.has_address,
        !stop_spec(v).running,
        tick_reply(stop_spec(v)) < 0,
{
}

/// Pushing a frame only appends it to the waiting frames.
pub proof fn lemma_push_changes_only_frames(v: RoomView, f: Seq<u8>)
    ensures
        push_spec(v, f).frames == v.frames.push(f),
        push_spec(v, f).name == v.name,
        push_spec(v, f).has_address == v.has_address,
        push_spec(v, f).running == v.running,
{
}

/// A second start request changes nothing and launches no second loop.
pub proof fn lemma_startup_idempotent(v: RoomView)
    ensures
        startup_spec(startup_spec(v)) == startup_spec(v),
        !startup_spawns(startup_spec(v)),
{
}

/// A room that has not started yet cannot launch its loop; once it has, the
/// first start request launches it.
pub proof fn lemma_startup_needs_address(v: RoomView)
    ensures
        !v.has_address ==> !startup_spawns(v) && startup_spec(v) == v,
        v.has_address && !v.running ==> startup_spawns(v) && startup_spec(v).running,
{
}

/// After a stop request the next tick ends the game loop.
pub proof fn lemma_stop_ends_loop(v: RoomView)
    ensures
        tick_reply(stop_spec(v)) == -1,
        !loop_continues(Some(tick_reply(stop_spec(v)))),
{
}

/// While the room runs, a tick keeps the game loop going.
pub proof fn lemma_running_loop_goes_on(v: RoomView)
    requires
        v.running,
    ensures
        loop_continues(Some(tick_reply(v))),
        tick_spec(v).running,
{
}

/// Frames come out at the next tick in the order they were pushed, after
/// those already waiting, and the buffer is then empty.
pub proof fn lemma_frames_in_order(v: RoomView, fs: Seq<Seq<u8>>)
    ensures
        push_all(v, fs).frames == v.frames + fs,
        push_all(v, fs).running == v.running,
        tick_spec(push_all(v, fs)).frames.len() == 0,
    decreases fs.len(),
{
    if fs.len() > 0 {
        lemma_frames_in_order(v, fs.drop_last());
        assert(v.frames + fs =~= (v.frames + fs.drop_last()).push(fs.last()));
    } else {
        assert(v.frames + fs =~= v.frames);
    }
}

impl Room {
    pub fn new(name: String) -> (room: Room)
        ensures
            room@ == (RoomView {
                frames: Seq::empty(),
                has_address: false,
                name: name@,
                running: false,
            }),
    {
        let room = Room { frame_buffer: Vec::new(), has_address: false, name, running: false };
        proof {
            assert(room@.frames =~= Seq::<Seq<u8>>::empty());
        }
        room
    }

    /// The room has started and now knows its own address.
    pub fn started(&mut self)
        ensures
            final(self)@ == (RoomView { has_address: true, ..old(self)@ }),
    {
        self.has_address = true;
    }

    /// Handles a start request: returns whether a new game loop is to be
    /// launched. A running room, or one that has not started yet, does not
    /// launch one.
    pub fn startup(&mut self) -> (spawn: bool)
        ensures
            final(self)@ == startup_spec(old(self)@),
            spawn == startup_spawns(old(self)@),
            final(self)@.frames == old(self)@.frames,
            final(self)@.name == old(self)@.name,
            final(self)@.has_address == old(self)@.has_address,
            final(self)@.running == (old(self)@.running || old(self)@.has_address),
            spawn == (!old(self)@.running && old(self)@.has_address),
    {
        if self.running {
            return false;
        }
        if self.has_address {
            self.running = true;
            true
        } else {
            false
        }
    }

    /// `RoomStart`: see `startup`.
    pub fn on_start(&mut self, _msg: RoomStart) -> (spawn: bool)
        ensures
            final(self)@ == startup_spec(old(self)@),
            spawn == startup_spawns(old(self)@),
            final(self)@.frames == old(self)@.frames,
            final(self)@.name == old(self)@.name,
            final(self)@.has_address == old(self)@.has_address,
            final(self)@.running == (old(self)@.running || old(self)@.has_address),
            spawn == (!old(self)@.running && old(self)@.has_address),
    {
        self.startup()
    }

    /// `RoomStop`: the game loop ends at its next tick.
    pub fn on_stop(&mut self, _msg: RoomStop)
        ensures
            final(self)@ == stop_spec(old(self)@),
            final(self)@.frames == old(self)@.frames,
            final(self)@.name == old(self)@.name,
            final(self)@.has_address == old(self)@.has_address,
            !final(self)@.running,
    {
        self.running = false;
    }

    /// `PushBuffer`: the frame is queued for the next tick.
    pub fn on_push(&mut self, msg: PushBuffer)
        ensures
            final(self)@ == push_spec(old(self)@, msg.0@),
            final(self)@.frames == old(self)@.frames.push(msg.0@),
            final(self)@.name == old(self)@.name,
            final(self)@.has_address == old(self)@.has_address,
            final(self)@.running == old(self)@.running,
    {
        let PushBuffer(frame) = msg;
        proof {
            assert(frame.deep_view() =~= frame@);
        }
        self.frame_buffer.push(frame);
        proof {
            assert(self@.frames =~= old(self)@.frames.push(msg.0@));
        }
    }

    /// One tick of the game loop: the buffered frames go to everyone in the
    /// room as one `SendKeyboard` parcel, the buffer is emptied, and the reply
    /// tells the loop whether to go on.
    pub fn on_tick(&mut self) -> (out: (ClientMessage, isize))
        ensures
            final(self)@ == tick_spec(old(self)@),
            final(self)@.frames.len() == 0,
            final(self)@.name == old(self)@.name,
            final(self)@.has_address == old(self)@.has_address,
            final(self)@.running == old(self)@.running,
            out.0.id == 0,
            out.0.room@ == old(self)@.name,
            out.0.msg@ == keyboard_json(old(self)@.frames),
            out.1 == tick_reply(old(self)@),
            out.1 == (if old(self)@.running { 1isize } else { -1isize }),
    {
        let mut frames: Vec<Vec<u8>> = Vec::new();
        std::mem::swap(&mut frames, &mut self.frame_buffer);
        let parcel = SendParcel::SendKeyboard(frames);
        let msg = ClientMessage { id: 0, room: self.name.clone(), msg: parcel.to_json() };
        proof {
            assert(self@.frames =~= Seq::<Seq<u8>>::empty());
        }
        let reply: isize = if self.running {
            1
        } else {
            -1
        };
        (msg, reply)
    }

    pub fn is_running(&self) -> (b: bool)
        ensures
            b == self@.running,
    {
        self.running
    }

    pub fn has_address(&self) -> (b: bool)
        ensures
            b == self@.has_address,
    {
        self.has_address
    }

    /// The number of frames waiting for the next tick.
    pub fn pending_frames(&self) -> (n: usize)
        ensures
            n == self@.frames.len(),
    {
        self.frame_buffer.len()
    }

    pub fn name(&self) -> (name: String)
        ensures
            name@ == self@.name,
    {
        self.name.clone()
    }

    /// Whether the game loop goes on after the reply to its last tick.
    pub fn tick_continues(reply: Option<isize>) -> (go_on: bool)
        ensures
            go_on == loop_continues(reply),
    {
        match reply {
            Some(i) => i >= 0,
            None => false,
        }
    }
}

} // verus!
