//! The per-view interaction state: selection and offset of the visible
//! list, the input mode and its edit buffers, the pending search, the key
//! buffer, and the notification lines.

use vstd::prelude::*;
use vstd::string::StringExecFns;

use crate::config::Config;

verus! {

/// One notification slot; each channel shows at most one line.
#[derive(Debug, Clone, Copy, PartialEq, Eq, Structural, Hash, PartialOrd, Ord)]
pub enum NotifChannel {
    Search,
    Echo,
    Line,
    Keys,
    Error,
}

/// Where key presses go: the application, or one of the two line editors.
#[derive(Debug, Clone, Copy, PartialEq, Eq, Structural)]
pub enum InputState {
    App,
    Search,
    Command,
}

/// Selection and first visible row of a scrollable list. An out-of-range
/// selection is corrected at render time, so `select_last` may park the
/// selection at `usize::MAX`.
#[derive(Debug, Clone, Copy, PartialEq, Eq, Structural)]
pub struct ListCursor {
    pub selected: Option<usize>,
    pub offset: usize,
}

impl ListCursor {
    /// No selection, offset at the top.
    pub fn starting() -> (r: ListCursor)
        ensures
            r.selected is None,
            r.offset == 0,
    {
        ListCursor { selected: None, offset: 0 }
    }

    /// Select an index; deselecting also rewinds the offset.
    pub fn select(&mut self, index: Option<usize>)
        ensures
            final(self).selected == index,
            final(self).offset == if index is None {
                0int
            } else {
                old(self).offset as int
            },
    {
        self.selected = index;
        if self.selected.is_none() {
            self.offset = 0;
        }
    }

    /// Select the next item, or the first when nothing is selected.
    pub fn select_next(&mut self)
        ensures
            final(self).selected == Some(
                match old(self).selected {
                    Some(i) => if i < usize::MAX {
                        (i + 1) as usize
                    } else {
                        usize::MAX
                    },
                    None => 0,
                },
            ),
            final(self).offset == old(self).offset,
    {
        let next: usize = match self.selected {
            Some(i) => if i < usize::MAX {
                i + 1
            } else {
                usize::MAX
            },
            None => 0,
        };
        self.select(Some(next));
    }

    /// Select the previous item, or the last when nothing is selected.
    pub fn select_previous(&mut self)
        ensures
            final(self).selected == Some(
                match old(self).selected {
                    Some(i) => if i > 0 {
                        (i - 1) as usize
                    } else {
                        0
                    },
                    None => usize::MAX,
                },
            ),
            final(self).offset == old(self).offset,
    {
        let previous: usize = match self.selected {
            Some(i) => if i > 0 {
                i - 1
            } else {
                0
            },
            None => usize::MAX,
        };
        self.select(Some(previous));
    }

    /// Select the first item.
    pub fn select_first(&mut self)
        ensures
            final(self).selected == Some(0usize),
            final(self).offset == old(self).offset,
    {
        self.select(Some(0));
    }

    /// Select the last item; render-time clamping finds its index.
    pub fn select_last(&mut self)
        ensures
            final(self).selected == Some(usize::MAX),
            final(self).offset == old(self).offset,
    {
        self.select(Some(usize::MAX));
    }

    /// Move the selection down by `amount`, saturating.
    pub fn scroll_down_by(&mut self, amount: u16)
        ensures
            final(self).selected == Some(
                (if old(self).selected.unwrap_or(0) + amount <= usize::MAX {
                    (old(self).selected.unwrap_or(0) + amount) as usize
                } else {
                    usize::MAX
                }),
            ),
            final(self).offset == old(self).offset,
    {
        let selected = match self.selected {
            Some(i) => i,
            None => 0,
        };
        let next = match selected.checked_add(amount as usize) {
            Some(v) => v,
            None => usize::MAX,
        };
        self.select(Some(next));
    }

    /// Move the selection up by `amount`, stopping at the top.
    pub fn scroll_up_by(&mut self, amount: u16)
        ensures
            final(self).selected == Some(
                (if old(self).selected.unwrap_or(0) >= amount {
                    (old(self).selected.unwrap_or(0) - amount) as usize
                } else {
                    0
                }),
            ),
            final(self).offset == old(self).offset,
    {
        let selected = match self.selected {
            Some(i) => i,
            None => 0,
        };
        let next: usize = if selected >= amount as usize {
            selected - amount as usize
        } else {
            0
        };
        self.select(Some(next));
    }
}

/// The notification slot for a channel: the most recently stored message.
pub open spec fn notif_lookup(l: Seq<(NotifChannel, Seq<char>)>, c: NotifChannel) -> Option<
    Seq<char>,
>
    decreases l.len(),
{
    if l.len() == 0 {
        None
    } else if l.last().0 == c {
        Some(l.last().1)
    } else {
        notif_lookup(l.drop_last(), c)
    }
}

/// Views of the notification slots.
pub open spec fn notif_views(l: Seq<(NotifChannel, String)>) -> Seq<(NotifChannel, Seq<char>)> {
    l.map_values(|p: (NotifChannel, String)| (p.0, p.1@))
}

/// Dropping every slot of one channel leaves the other channels' slots.
proof fn lemma_notif_filter(l: Seq<(NotifChannel, Seq<char>)>, channel: NotifChannel, c: NotifChannel)
    requires
        c != channel,
    ensures
        notif_lookup(l.filter(|p: (NotifChannel, Seq<char>)| p.0 != channel), c) == notif_lookup(
            l,
            c,
        ),
    decreases l.len(),
{
    reveal(Seq::filter);
    let pred = |p: (NotifChannel, Seq<char>)| p.0 != channel;
    if l.len() > 0 {
        lemma_notif_filter(l.drop_last(), channel, c);
        if pred(l.last()) {
            assert(l.filter(pred) == l.drop_last().filter(pred).push(l.last()));
            assert(l.filter(pred).drop_last() =~= l.drop_last().filter(pred));
        }
    }
}

/// Dropping every slot of a channel leaves that channel empty.
proof fn lemma_notif_filter_gone(l: Seq<(NotifChannel, Seq<char>)>, channel: NotifChannel)
    ensures
        notif_lookup(l.filter(|p: (NotifChannel, Seq<char>)| p.0 != channel), channel) is None,
    decreases l.len(),
{
    reveal(Seq::filter);
    let pred = |p: (NotifChannel, Seq<char>)| p.0 != channel;
    if l.len() > 0 {
        lemma_notif_filter_gone(l.drop_last(), channel);
        if pred(l.last()) {
            assert(l.filter(pred) == l.drop_last().filter(pred).push(l.last()));
            assert(l.filter(pred).drop_last() =~= l.drop_last().filter(pred));
        }
    }
}

/// The shared interaction state of one view.
#[derive(Debug)]
pub struct AppState {
    pub quit: bool,
    pub config: Config,
    pub notif: Vec<(NotifChannel, String)>,
    pub key_combination: String,
    pub search_string: String,
    pub search_reverse: bool,
    pub current_search_idx: Option<usize>,
    pub command_string: String,
    pub edit_cursor: usize,
    pub input_state: InputState,
    pub list: ListCursor,
}

impl AppState {
    /// A fresh state around a configuration: application input mode, no
    /// selection, everything else empty.
    pub fn new(config: Config) -> (r: AppState)
        ensures
            r.quit == false,
            r.config == config,
            notif_views(r.notif@) == Seq::<(NotifChannel, Seq<char>)>::empty(),
            r.key_combination@ == Seq::<char>::empty(),
            r.search_string@ == Seq::<char>::empty(),
            r.search_reverse == false,
            r.current_search_idx is None,
            r.command_string@ == Seq::<char>::empty(),
            r.edit_cursor == 0,
            r.input_state == InputState::App,
            r.list == (ListCursor { selected: None, offset: 0 }),
    {
        let r = AppState {
            quit: false,
            config,
            notif: Vec::new(),
            key_combination: String::new(),
            search_string: String::new(),
            search_reverse: false,
            current_search_idx: None,
            command_string: String::new(),
            edit_cursor: 0,
            input_state: InputState::App,
            list: ListCursor::starting(),
        };
        proof {
            assert(notif_views(r.notif@) =~= Seq::<(NotifChannel, Seq<char>)>::empty());
        }
        r
    }

    /// The selected index, or the index error the dispatcher reports.
    pub fn idx(&self) -> (r: Result<usize, crate::errors::Error>)
        ensures
            match r {
                Ok(i) => self.list.selected == Some(i),
                Err(e) => self.list.selected is None && e@
                    == crate::errors::ErrorV::StateIndex,
            },
    {
        match self.list.selected {
            Some(i) => Ok(i),
            None => Err(crate::errors::Error::StateIndex),
        }
    }

    /// Put a message on a channel, or clear the channel. Other channels
    /// keep their slots.
    pub fn notify(&mut self, channel: NotifChannel, message: Option<String>)
        ensures
            final(self).quit == old(self).quit,
            final(self).config == old(self).config,
            final(self).key_combination == old(self).key_combination,
            final(self).search_string == old(self).search_string,
            final(self).search_reverse == old(self).search_reverse,
            final(self).current_search_idx == old(self).current_search_idx,
            final(self).command_string == old(self).command_string,
            final(self).edit_cursor == old(self).edit_cursor,
            final(self).input_state == old(self).input_state,
            final(self).list == old(self).list,
            notif_lookup(notif_views(final(self).notif@), channel) == (match message {
                Some(m) => Some(m@),
                None => None::<Seq<char>>,
            }),
            forall|c: NotifChannel|
                c != channel ==> #[trigger] notif_lookup(notif_views(final(self).notif@), c)
                    == notif_lookup(notif_views(old(self).notif@), c),
    {
        let ghost oldv = notif_views(self.notif@);
        let ghost pred = |p: (NotifChannel, Seq<char>)| p.0 != channel;
        let mut out: Vec<(NotifChannel, String)> = Vec::new();
        let mut i: usize = 0;
        proof {
            reveal(Seq::filter);
        }
        assert(notif_views(out@) =~= oldv.take(0).filter(pred));
        while i < self.notif.len()
            invariant
                i <= self.notif@.len(),
                oldv == notif_views(self.notif@),
                pred == (|p: (NotifChannel, Seq<char>)| p.0 != channel),
                notif_views(out@) == oldv.take(i as int).filter(pred),
            decreases self.notif@.len() - i,
        {
            proof {
                reveal(Seq::filter);
            }
            let ghost pre = oldv.take(i as int);
            let ghost post = oldv.take(i + 1);
            assert(post.drop_last() =~= pre && post.last() == oldv[i as int]);
            assert(post.drop_last() == pre);
            let e = &self.notif[i];
            assert(oldv[i as int] == (e.0, e.1@));
            if !(e.0 == channel) {
                let copy = (e.0, e.1.clone());
                out.push(copy);
                assert(notif_views(out@) =~= post.filter(pred));
            } else {
                assert(notif_views(out@) =~= post.filter(pred));
            }
            i += 1;
        }
        assert(oldv.take(oldv.len() as int) =~= oldv);
        let ghost kept = notif_views(out@);
        match message {
            Some(m) => {
                let ghost mv = m@;
                out.push((channel, m));
                proof {
                    assert(notif_views(out@) =~= kept.push((channel, mv)));
                    assert(notif_views(out@).drop_last() =~= kept);
                }
            },
            None => {},
        }
        proof {
            assert forall|c: NotifChannel|
                c != channel implies #[trigger] notif_lookup(notif_views(out@), c)
                == notif_lookup(oldv, c) by {
                lemma_notif_filter(oldv, channel, c);
                assert(notif_lookup(kept, c) == notif_lookup(oldv, c));
            }
            if message is None {
                lemma_notif_filter_gone(oldv, channel);
            }
        }
        self.notif = out;
    }
}
/// The raw key buffer of the simple input front: the accumulated tokens and
/// whether the next press starts a fresh combination.
#[derive(Debug)]
pub struct InputManager {
    pub key_combination: String,
    pub reset_key_combination: bool,
}

impl InputManager {
    /// An empty buffer that resets on the next press.
    pub fn new() -> (r: InputManager)
        ensures
            r.key_combination@ == Seq::<char>::empty(),
            r.reset_key_combination == true,
    {
        InputManager { key_combination: String::new(), reset_key_combination: true }
    }

    /// Start one key press: a buffer marked for reset empties first; a
    /// one-shot keep is consumed, so the next press resets again.
    pub fn begin_press(&mut self)
        ensures
            final(self).reset_key_combination == true,
            final(self).key_combination@ == (if old(self).reset_key_combination {
                Seq::<char>::empty()
            } else {
                old(self).key_combination@
            }),
    {
        if self.reset_key_combination {
            self.key_combination = String::new();
        } else {
            self.reset_key_combination = true;
        }
    }
}

} // verus!
