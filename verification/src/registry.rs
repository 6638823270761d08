use vstd::prelude::*;

use crate::client::Client;
use crate::winsys::window::Pid;
use crate::winsys::window::Window;

use std::collections::HashMap;

verus! {

/// The managed clients, by window, with the maps between client windows and their frames and
/// from processes to the windows they opened.
pub struct ClientRegistry {
    clients: HashMap<Window, Client>,
    frames: HashMap<Window, Window>,
    windows: HashMap<Window, Window>,
    pids: HashMap<Pid, Window>,
}

impl ClientRegistry {
    /// The clients, by window.
    pub closed spec fn clients(&self) -> Map<Window, Client> {
        self.clients@
    }

    /// The client window of each frame.
    pub closed spec fn frames(&self) -> Map<Window, Window> {
        self.frames@
    }

    /// The frame of each client window.
    pub closed spec fn windows(&self) -> Map<Window, Window> {
        self.windows@
    }

    /// The window each process opened last.
    pub closed spec fn pids(&self) -> Map<Pid, Window> {
        self.pids@
    }

    /// Each client is recorded under its own window, that window maps to the client's frame and
    /// the frame back to it; every window and every frame recorded is that of a client.
    pub open spec fn wf(&self) -> bool {
        &&& forall|w: Window| #[trigger] self.clients().contains_key(w) ==> {
            &&& self.clients()[w]@.window == w
            &&& self.windows().contains_key(w)
            &&& self.windows()[w] == self.clients()[w]@.frame
            &&& self.frames().contains_key(self.clients()[w]@.frame)
            &&& self.frames()[self.clients()[w]@.frame] == w
        }
        &&& forall|w: Window| #[trigger] self.windows().contains_key(w) ==> self.clients().contains_key(w)
        &&& forall|f: Window| #[trigger] self.frames().contains_key(f) ==> self.clients().contains_key(self.frames()[f])
            && self.windows()[self.frames()[f]] == f
    }

    /// No clients.
    pub fn new() -> (r: Self)
        ensures
            r.wf(),
            r.clients() == Map::<Window, Client>::empty(),
            r.frames() == Map::<Window, Window>::empty(),
            r.windows() == Map::<Window, Window>::empty(),
            r.pids() == Map::<Pid, Window>::empty(),
    {
        ClientRegistry { clients: HashMap::new(), frames: HashMap::new(), windows: HashMap::new(), pids: HashMap::new() }
    }

    /// The client of `window`, where it is managed.
    pub fn client(&self, window: Window) -> (r: Option<&Client>)
        ensures
            match r {
                Some(c) => self.clients().contains_key(window) && *c == self.clients()[window],
                None => !self.clients().contains_key(window),
            },
    {
        self.clients.get(&window)
    }

    /// The client window of `frame`, where it is the frame of a client.
    pub fn window_of_frame(&self, frame: Window) -> (r: Option<Window>)
        ensures
            r == (if self.frames().contains_key(frame) {
                Some(self.frames()[frame])
            } else {
                None
            }),
    {
        match self.frames.get(&frame) {
            Some(w) => Some(*w),
            None => None,
        }
    }

    /// The frame of client window `window`, where it is managed.
    pub fn frame_of_window(&self, window: Window) -> (r: Option<Window>)
        ensures
            r == (if self.windows().contains_key(window) {
                Some(self.windows()[window])
            } else {
                None
            }),
    {
        match self.windows.get(&window) {
            Some(f) => Some(*f),
            None => None,
        }
    }

    /// The window process `pid` opened last, where it is recorded.
    pub fn window_of_pid(&self, pid: Pid) -> (r: Option<Window>)
        ensures
            r == (if self.pids().contains_key(pid) {
                Some(self.pids()[pid])
            } else {
                None
            }),
    {
        match self.pids.get(&pid) {
            Some(w) => Some(*w),
            None => None,
        }
    }

    /// Records `client`, newly managed, under its window, with its frame, and as the window its
    /// process `pid` (where known) opened last. Its window and frame must be new to the
    /// registry.
    pub fn register(&mut self, client: Client, pid: Option<Pid>)
        requires
            old(self).wf(),
            !old(self).clients().contains_key(client@.window),
            !old(self).frames().contains_key(client@.frame),
        ensures
            final(self).wf(),
            final(self).clients() == old(self).clients().insert(client@.window, client),
            final(self).windows() == old(self).windows().insert(client@.window, client@.frame),
            final(self).frames() == old(self).frames().insert(client@.frame, client@.window),
            final(self).pids() == (match pid {
                Some(p) => old(self).pids().insert(p, client@.window),
                None => old(self).pids(),
            }),
    {
        let (window, frame) = client.windows();
        if let Some(p) = pid {
            self.pids.insert(p, window);
        }
        self.frames.insert(frame, window);
        self.windows.insert(window, frame);
        self.clients.insert(window, client);
        proof {
            let o = old(self);
            assert forall|w: Window| #[trigger] self.clients().contains_key(w) implies {
                &&& self.clients()[w]@.window == w
                &&& self.windows().contains_key(w)
                &&& self.windows()[w] == self.clients()[w]@.frame
                &&& self.frames().contains_key(self.clients()[w]@.frame)
                &&& self.frames()[self.clients()[w]@.frame] == w
            } by {
                if w != window {
                    assert(o.clients().contains_key(w));
                    assert(o.frames().contains_key(o.clients()[w]@.frame));
                    assert(o.clients()[w]@.frame != frame);
                }
            }
            assert forall|w: Window| #[trigger] self.windows().contains_key(w) implies self.clients().contains_key(w) by {
                if w != window {
                    assert(o.windows().contains_key(w));
                }
            }
            assert forall|f: Window| #[trigger] self.frames().contains_key(f) implies self.clients().contains_key(self.frames()[f])
                && self.windows()[self.frames()[f]] == f by {
                if f != frame {
                    assert(o.frames().contains_key(f));
                    assert(o.windows()[o.frames()[f]] == f);
                    assert(o.clients().contains_key(o.frames()[f]));
                    assert(o.frames()[f] != window);
                }
            }
        }
    }

    /// Forgets the client of `window`, giving it back: its window and frame leave the maps, and so
    /// does any process entry keyed by the window's number. Nothing changes where `window` is
    /// not managed.
    pub fn unregister(&mut self, window: Window) -> (r: Option<Client>)
        requires
            old(self).wf(),
        ensures
            final(self).wf(),
            old(self).clients().contains_key(window) ==> {
                let frame = old(self).clients()[window]@.frame;
                &&& r == Some(old(self).clients()[window])
                &&& final(self).clients() == old(self).clients().remove(window)
                &&& final(self).windows() == old(self).windows().remove(window)
                &&& final(self).frames() == old(self).frames().remove(frame)
                &&& final(self).pids() == old(self).pids().remove(window as Pid)
            },
            !old(self).clients().contains_key(window) ==> r is None && final(self).clients() == old(self).clients()
                && final(self).windows() == old(self).windows() && final(self).frames() == old(self).frames()
                && final(self).pids() == old(self).pids(),
    {
        let frame = match self.windows.get(&window) {
            Some(f) => *f,
            None => {
                return None;
            },
        };
        let client = self.clients.remove(&window);
        self.windows.remove(&window);
        self.frames.remove(&frame);
        self.pids.remove(&window);
        proof {
            let o = old(self);
            assert forall|w: Window| #[trigger] self.clients().contains_key(w) implies {
                &&& self.clients()[w]@.window == w
                &&& self.windows().contains_key(w)
                &&& self.windows()[w] == self.clients()[w]@.frame
                &&& self.frames().contains_key(self.clients()[w]@.frame)
                &&& self.frames()[self.clients()[w]@.frame] == w
            } by {
                assert(o.clients().contains_key(w));
                assert(o.clients()[w]@.frame != frame);
            }
            assert forall|w: Window| #[trigger] self.windows().contains_key(w) implies self.clients().contains_key(w) by {
                assert(o.windows().contains_key(w));
            }
            assert forall|f: Window| #[trigger] self.frames().contains_key(f) implies self.clients().contains_key(self.frames()[f])
                && self.windows()[self.frames()[f]] == f by {
                assert(o.frames().contains_key(f));
                assert(o.frames()[f] != window);
                assert(o.windows()[o.frames()[f]] == f);
            }
        }
        client
    }
}

/// Registering a new client (by `ClientRegistry::register`) and then unregistering its window
/// (by `ClientRegistry::unregister`) leaves the clients and the maps between windows and frames
/// as they were.
pub proof fn law_register_then_unregister(reg: &ClientRegistry, client: Client)
    requires
        reg.wf(),
        !reg.clients().contains_key(client@.window),
        !reg.frames().contains_key(client@.frame),
    ensures
        reg.clients().insert(client@.window, client).remove(client@.window) == reg.clients(),
        reg.windows().insert(client@.window, client@.frame).remove(client@.window) == reg.windows(),
        reg.frames().insert(client@.frame, client@.window).remove(client@.frame) == reg.frames(),
{
    assert(!reg.windows().contains_key(client@.window));
    assert(reg.clients().insert(client@.window, client).remove(client@.window) =~= reg.clients());
    assert(reg.windows().insert(client@.window, client@.frame).remove(client@.window) =~= reg.windows());
    assert(reg.frames().insert(client@.frame, client@.window).remove(client@.frame) =~= reg.frames());
}

} // verus!
