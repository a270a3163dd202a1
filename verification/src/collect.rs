//! Collecting the links posted since the last checkbox into a list.
//!
//! The history of a channel is read page by page, newest message first.
//! `Gathering` is the state of one collection; each page is absorbed by
//! `Gathering::absorb`, which says whether to fetch the next page.
use vstd::prelude::*;
use vstd::string::*;
use crate::discord::{ChatMessage, ReactionKind, first_title, is_unicode};
use crate::handler::Handler;
use crate::text::{occurs_in, count_char, decimal, decimal_string, join, lemma_count_concat, lemma_join_newlines};

verus! {

/// One collected link: the title of its preview, the link, and the message
/// it was posted in.
pub struct CollectEntry {
    pub title: Option<String>,
    pub url: String,
    pub msg_id: u64,
}

/// A collected link as text.
pub struct EntryView {
    pub title: Option<Seq<char>>,
    pub url: Seq<char>,
    pub msg_id: u64,
}

impl View for CollectEntry {
    type V = EntryView;

    open spec fn view(&self) -> EntryView {
        EntryView {
            title: match self.title {
                Some(t) => Some(t@),
                None => None,
            },
            url: self.url@,
            msg_id: self.msg_id,
        }
    }
}

/// The views of a sequence of entries.
pub open spec fn entry_views(entries: Seq<CollectEntry>) -> Seq<EntryView> {
    entries.map_values(|e: CollectEntry| e@)
}

/// The state of a collection: the message before which the next page is
/// read, the links found so far (newest first) and, once it is reached, the
/// link of the message with the checkbox.
pub struct Gathering {
    pub cursor: u64,
    pub entries: Vec<CollectEntry>,
    pub stop_msg_link: Option<String>,
}

/// The state of a collection as values.
pub struct GatheringView {
    pub cursor: u64,
    pub entries: Seq<EntryView>,
    pub stop_msg_link: Option<Seq<char>>,
}

impl View for Gathering {
    type V = GatheringView;

    open spec fn view(&self) -> GatheringView {
        GatheringView {
            cursor: self.cursor,
            entries: entry_views(self.entries@),
            stop_msg_link: match self.stop_msg_link {
                Some(l) => Some(l@),
                None => None,
            },
        }
    }
}

/// What to do after a page: read the page before the given message, or stop.
#[derive(PartialEq, Eq, Structural, Clone, Copy, Debug)]
pub enum GatherStep {
    FetchBefore(u64),
    Finished,
}

/// The state after one message. Once the checkbox is reached nothing
/// changes. A message with the checkbox ends the collection; an ignored
/// message is passed over without moving the cursor; any other message moves
/// the cursor and, when it holds a link, adds an entry.
pub open spec fn absorb_message(h: Handler, g: GatheringView, m: ChatMessage) -> GatheringView {
    if g.stop_msg_link is Some {
        g
    } else if m.has_checkbox() {
        GatheringView { stop_msg_link: Some(m.link_text()), ..g }
    } else if h.ignores(m) {
        g
    } else {
        let entries = match h.url_in(m.content@) {
            Some(u) => g.entries.push(EntryView { title: first_title(m.embeds@), url: u, msg_id: m.id }),
            None => g.entries,
        };
        GatheringView { cursor: m.id, entries, stop_msg_link: None }
    }
}

/// The state after the messages of `page`, in order.
pub open spec fn absorb_messages(h: Handler, g: GatheringView, page: Seq<ChatMessage>) -> GatheringView
    decreases page.len(),
{
    if page.len() == 0 {
        g
    } else {
        absorb_message(h, absorb_messages(h, g, page.drop_last()), page.last())
    }
}

/// Reading two pages one after the other gives the state that reading them
/// as one page gives.
pub proof fn lemma_absorb_split(h: Handler, g: GatheringView, first: Seq<ChatMessage>, second: Seq<ChatMessage>)
    ensures
        absorb_messages(h, absorb_messages(h, g, first), second) == absorb_messages(h, g, first + second),
    decreases second.len(),
{
    if second.len() == 0 {
        assert(first + second =~= first);
    } else {
        lemma_absorb_split(h, g, first, second.drop_last());
        assert((first + second).drop_last() =~= first + second.drop_last());
    }
}

/// Once the checkbox is reached, later messages change nothing.
pub proof fn lemma_stopped_is_final(h: Handler, g: GatheringView, page: Seq<ChatMessage>)
    requires
        g.stop_msg_link is Some,
    ensures
        absorb_messages(h, g, page) == g,
    decreases page.len(),
{
    if page.len() > 0 {
        lemma_stopped_is_final(h, g, page.drop_last());
    }
}

impl Gathering {
    /// The state at the start of a collection requested by the message
    /// `command_msg_id`: reading starts before that message.
    pub fn new(command_msg_id: u64) -> (g: Gathering)
        ensures
            g@ == (GatheringView { cursor: command_msg_id, entries: Seq::empty(), stop_msg_link: None }),
    {
        let g = Gathering { cursor: command_msg_id, entries: Vec::new(), stop_msg_link: None };
        assert(g@.entries =~= Seq::<EntryView>::empty());
        g
    }

    /// Takes in one page of the history, newest message first, and says
    /// whether to read on: a page that is empty, or that holds the
    /// checkbox, ends the collection.
    pub fn absorb(&mut self, handler: &Handler, page: &[ChatMessage]) -> (step: GatherStep)
        ensures
            final(self)@ == absorb_messages(*handler, old(self)@, page@),
            step == (if page@.len() == 0 || final(self)@.stop_msg_link is Some {
                GatherStep::Finished
            } else {
                GatherStep::FetchBefore(final(self)@.cursor)
            }),
            forall|k: int|
                old(self)@.entries.len() <= k < final(self)@.entries.len() ==> exists|i: int|
                    0 <= i < page@.len() && found_in(*handler, #[trigger] final(self)@.entries[k], page@[i]),
    {
        let ghost start = self@;
        if page.len() == 0 {
            return GatherStep::Finished;
        }
        let mut i: usize = 0;
        while i < page.len() && self.stop_msg_link.is_none()
            invariant
                i <= page.len(),
                self@ == absorb_messages(*handler, start, page@.take(i as int)),
                self@.entries.len() >= start.entries.len(),
                forall|k: int|
                    start.entries.len() <= k < self@.entries.len() ==> exists|j: int|
                        0 <= j < i && found_in(*handler, #[trigger] self@.entries[k], page@[j]),
            decreases page.len() - i,
        {
            let m = &page[i];
            let ghost before = self@;
            if Handler::is_stop_msg(m) {
                self.stop_msg_link = Some(m.link());
            } else if handler.ignore_msg(m) {
            } else {
                match handler.find_url(m.content.as_str()) {
                    Some(url) => {
                        let title = Handler::get_link_title(m.embeds.as_slice());
                        let ghost old_entries = self.entries@;
                        self.entries.push(CollectEntry { title, url, msg_id: m.id });
                        assert(entry_views(self.entries@) =~= entry_views(old_entries).push(
                            self.entries@.last()@,
                        ));
                        assert(found_in(*handler, self@.entries[self@.entries.len() - 1], page@[i as int]));
                    },
                    None => {},
                }
                self.cursor = m.id;
            }
            assert(page@.take(i + 1).drop_last() =~= page@.take(i as int));
            assert(self@ == absorb_message(*handler, before, page@[i as int]));
            assert forall|k: int| start.entries.len() <= k < self@.entries.len() implies exists|j: int|
                0 <= j < i + 1 && found_in(*handler, #[trigger] self@.entries[k], page@[j]) by {
                if k < before.entries.len() {
                    assert(self@.entries[k] == before.entries[k]);
                    let j = choose|j: int| 0 <= j < i && found_in(*handler, before.entries[k], page@[j]);
                } else {
                    assert(found_in(*handler, self@.entries[k], page@[i as int]));
                }
            }
            i += 1;
        }
        proof {
            let pre = page@.take(i as int);
            let rest = page@.skip(i as int);
            assert(pre + rest =~= page@);
            lemma_absorb_split(*handler, start, pre, rest);
            if i < page.len() {
                lemma_stopped_is_final(*handler, self@, rest);
            } else {
                assert(rest =~= Seq::<ChatMessage>::empty());
            }
        }
        if self.stop_msg_link.is_some() {
            GatherStep::Finished
        } else {
            GatherStep::FetchBefore(self.cursor)
        }
    }
}

/// The title shown for an entry: its preview title, or `TODO`.
pub open spec fn title_or_todo(title: Option<Seq<char>>) -> Seq<char> {
    match title {
        Some(t) => t,
        None => "TODO"@,
    }
}

/// The list line of one entry: `* [title](url)`.
pub open spec fn entry_line(e: EntryView) -> Seq<char> {
    "* ["@ + title_or_todo(e.title) + "]("@ + e.url + ")"@
}

/// The summary of a collection: the number of entries and the link of the
/// message with the checkbox (empty when none was reached).
pub open spec fn collect_summary(count: nat, stop_msg_link: Option<Seq<char>>) -> Seq<char> {
    "entries: "@ + decimal(count) + "\nstop msg: "@ + match stop_msg_link {
        Some(l) => l,
        None => Seq::empty(),
    }
}

/// The list of a collection: one line per entry, in order, joined by newlines.
pub open spec fn collect_list(entries: Seq<EntryView>) -> Seq<char> {
    join(entries.map_values(|e: EntryView| entry_line(e)), "\n"@)
}

/// The list line of one entry.
fn entry_line_string(e: &CollectEntry) -> (s: String)
    ensures
        s@ == entry_line(e@),
{
    let mut s = String::new();
    s.append("* [");
    match &e.title {
        Some(t) => s.append(t.as_str()),
        None => s.append("TODO"),
    }
    s.append("](");
    s.append(e.url.as_str());
    s.append(")");
    s
}

/// The reply to a collection: the summary, and the list that is attached to
/// it as a file.
pub fn create_collect_response(stop_msg_link: Option<String>, entries: Vec<CollectEntry>) -> (r: (String, String))
    ensures
        r.0@ == collect_summary(
            entries@.len(),
            match stop_msg_link {
                Some(l) => Some(l@),
                None => None,
            },
        ),
        r.1@ == collect_list(entry_views(entries@)),
{
    let mut meta = String::new();
    meta.append("entries: ");
    let count = decimal_string(entries.len() as u64);
    meta.append(count.as_str());
    meta.append("\nstop msg: ");
    match &stop_msg_link {
        Some(l) => meta.append(l.as_str()),
        None => {},
    }
    let ghost lines = entry_views(entries@).map_values(|e: EntryView| entry_line(e));
    let mut content = String::new();
    let mut i: usize = 0;
    while i < entries.len()
        invariant
            i <= entries.len(),
            lines == entry_views(entries@).map_values(|e: EntryView| entry_line(e)),
            content@ == join(lines.take(i as int), "\n"@),
        decreases entries.len() - i,
    {
        let line = entry_line_string(&entries[i]);
        assert(lines.take(i + 1).drop_last() =~= lines.take(i as int));
        if i > 0 {
            content.append("\n");
        } else {
            assert(lines.take(0) =~= Seq::<Seq<char>>::empty());
        }
        content.append(line.as_str());
        i += 1;
    }
    assert(lines.take(entries.len() as int) =~= lines);
    (meta, content)
}

} // verus!

verus! {

/// Whether `e` was collected from the message `m`: the message neither
/// ends the collection nor is passed over, and the entry holds its link,
/// its preview title and its id.
pub open spec fn collected_from(h: Handler, e: EntryView, m: ChatMessage) -> bool {
    &&& !m.has_checkbox()
    &&& !h.ignores(m)
    &&& h.url_in(m.content@) == Some(e.url)
    &&& e.title == first_title(m.embeds@)
    &&& e.msg_id == m.id
}

/// Whether `e` was collected from the message `m`, and its link is text of
/// that message.
pub open spec fn found_in(h: Handler, e: EntryView, m: ChatMessage) -> bool {
    &&& collected_from(h, e, m)
    &&& occurs_in(e.url, m.content@)
}

/// A collection only adds entries: the entries before a page stay, in
/// order, at the front; and each entry it adds comes from a message of the
/// page that neither ends the collection nor is passed over.
pub proof fn lemma_entries_come_from_page(h: Handler, g: GatheringView, page: Seq<ChatMessage>)
    ensures
        absorb_messages(h, g, page).entries.len() >= g.entries.len(),
        absorb_messages(h, g, page).entries.take(g.entries.len() as int) == g.entries,
        forall|k: int|
            g.entries.len() <= k < absorb_messages(h, g, page).entries.len() ==> exists|i: int|
                0 <= i < page.len() && collected_from(h, #[trigger] absorb_messages(h, g, page).entries[k], page[i]),
    decreases page.len(),
{
    if page.len() > 0 {
        let init = page.drop_last();
        let m = page.last();
        lemma_entries_come_from_page(h, g, init);
        let prev = absorb_messages(h, g, init);
        let next = absorb_messages(h, g, page);
        assert(next == absorb_message(h, prev, m));
        assert(next.entries.take(prev.entries.len() as int) == prev.entries);
        assert(next.entries.take(g.entries.len() as int) =~= prev.entries.take(g.entries.len() as int));
        assert forall|k: int| g.entries.len() <= k < next.entries.len() implies exists|i: int|
            0 <= i < page.len() && collected_from(h, #[trigger] next.entries[k], page[i]) by {
            if k < prev.entries.len() {
                assert(next.entries[k] == prev.entries[k]);
                let i = choose|i: int| 0 <= i < init.len() && collected_from(h, prev.entries[k], init[i]);
                assert(page[i] == init[i]);
            } else {
                assert(collected_from(h, next.entries[k], page[page.len() - 1]));
            }
        }
    }
}

/// A message that the handler passes over, and that does not end the
/// collection, changes nothing.
pub proof fn lemma_ignored_message_changes_nothing(h: Handler, g: GatheringView, page: Seq<ChatMessage>, m: ChatMessage)
    requires
        h.ignores(m),
        !m.has_checkbox(),
    ensures
        absorb_messages(h, g, page.push(m)) == absorb_messages(h, g, page),
{
    assert(page.push(m).drop_last() =~= page);
}

} // verus!

verus! {

/// The count in the summary is the number of lines of the list: when no
/// title or link holds a newline, the list of `n > 0` entries has `n - 1`
/// newlines.
pub proof fn lemma_summary_counts_list_lines(entries: Seq<EntryView>)
    requires
        entries.len() > 0,
        forall|i: int|
            0 <= i < entries.len() ==> count_char(#[trigger] entries[i].url, '\n') == 0 && count_char(
                title_or_todo(entries[i].title),
                '\n',
            ) == 0,
    ensures
        count_char(collect_list(entries), '\n') + 1 == entries.len(),
{
    reveal_strlit("\n");
    reveal_strlit("* [");
    reveal_strlit("](");
    reveal_strlit(")");
    reveal_strlit("TODO");
    let lines = entries.map_values(|e: EntryView| entry_line(e));
    assert("\n"@ =~= seq!['\n']);
    assert forall|i: int| 0 <= i < lines.len() implies count_char(#[trigger] lines[i], '\n') == 0 by {
        let e = entries[i];
        let a = "* ["@;
        let b = title_or_todo(e.title);
        let c = "]("@;
        let d = e.url;
        let f = ")"@;
        assert(count_char(a, '\n') == 0) by {
            reveal_with_fuel(count_char, 4);
        }
        assert(count_char(c, '\n') == 0) by {
            reveal_with_fuel(count_char, 3);
        }
        assert(count_char(f, '\n') == 0) by {
            reveal_with_fuel(count_char, 2);
        }
        lemma_count_concat(a, b, '\n');
        lemma_count_concat(a + b, c, '\n');
        lemma_count_concat(a + b + c, d, '\n');
        lemma_count_concat(a + b + c + d, f, '\n');
    }
    lemma_join_newlines(lines);
}

} // verus!

verus! {

/// Whether the messages of `page` have distinct ids.
pub open spec fn distinct_ids(page: Seq<ChatMessage>) -> bool {
    forall|i: int, j: int| 0 <= i < page.len() && 0 <= j < page.len() && i != j ==> page[i].id != page[j].id
}

/// A message that carries a reaction with one of the handler's ignored
/// emojis (for the handler `Handler::new` makes: 🇩, 🇮 or 🛑, the first being
/// the mark of a link already in the links file) is never collected: when
/// the ids of the page are distinct, no entry added while reading the page
/// has its id.
pub proof fn lemma_marked_message_never_collected(
    h: Handler,
    g: GatheringView,
    page: Seq<ChatMessage>,
    j: int,
    r: int,
    emoji: Seq<char>,
)
    requires
        0 <= j < page.len(),
        distinct_ids(page),
        0 <= r < page[j].reactions.len(),
        is_unicode(page[j].reactions@[r], emoji),
        h.ignored_emojis().contains(emoji),
    ensures
        forall|k: int|
            g.entries.len() <= k < absorb_messages(h, g, page).entries.len() ==> #[trigger] absorb_messages(
                h,
                g,
                page,
            ).entries[k].msg_id != page[j].id,
{
    lemma_entries_come_from_page(h, g, page);
    let m = page[j];
    assert(m.reactions@[r] matches ReactionKind::Unicode(e) && h.ignored_emojis().contains(e@));
    assert(h.ignores(m));
    assert forall|k: int| g.entries.len() <= k < absorb_messages(h, g, page).entries.len() implies #[trigger] absorb_messages(
        h,
        g,
        page,
    ).entries[k].msg_id != page[j].id by {
        let e = absorb_messages(h, g, page).entries[k];
        let i = choose|i: int| 0 <= i < page.len() && collected_from(h, e, page[i]);
        assert(i != j);
    }
}

/// When the page is read newest first (its ids strictly decrease) and the
/// entries already collected are newer than the whole page, the entries
/// stay ordered newest first, so no message is collected twice.
pub proof fn lemma_entry_ids_decrease(h: Handler, g: GatheringView, page: Seq<ChatMessage>)
    requires
        forall|i: int, j: int| 0 <= i < j < page.len() ==> page[i].id > page[j].id,
        forall|k: int, l: int| 0 <= k < l < g.entries.len() ==> g.entries[k].msg_id > g.entries[l].msg_id,
        forall|k: int, i: int| 0 <= k < g.entries.len() && 0 <= i < page.len() ==> g.entries[k].msg_id > page[i].id,
    ensures
        forall|k: int, l: int|
            0 <= k < l < absorb_messages(h, g, page).entries.len() ==> absorb_messages(h, g, page).entries[k].msg_id
                > absorb_messages(h, g, page).entries[l].msg_id,
    decreases page.len(),
{
    if page.len() > 0 {
        let init = page.drop_last();
        let m = page.last();
        lemma_entry_ids_decrease(h, g, init);
        lemma_entries_come_from_page(h, g, init);
        let prev = absorb_messages(h, g, init);
        let next = absorb_messages(h, g, page);
        assert(next == absorb_message(h, prev, m));
        assert forall|k: int| 0 <= k < prev.entries.len() implies prev.entries[k].msg_id > m.id by {
            if k < g.entries.len() {
                assert(prev.entries.take(g.entries.len() as int)[k] == prev.entries[k]);
                assert(g.entries[k].msg_id > page[page.len() - 1].id);
            } else {
                let i = choose|i: int| 0 <= i < init.len() && collected_from(h, prev.entries[k], init[i]);
                assert(init[i] == page[i]);
                assert(page[i].id > page[page.len() - 1].id);
            }
        }
        assert forall|k: int, l: int| 0 <= k < l < next.entries.len() implies next.entries[k].msg_id
            > next.entries[l].msg_id by {
            if l < prev.entries.len() {
                assert(next.entries[k] == prev.entries[k]);
                assert(next.entries[l] == prev.entries[l]);
            } else {
                assert(next.entries[k] == prev.entries[k]);
            }
        }
    }
}

} // verus!

verus! {

/// Whether a message neither ends a collection nor adds to it: it has no
/// checkbox, and it is passed over or holds no link.
pub open spec fn is_quiet(h: Handler, m: ChatMessage) -> bool {
    &&& !m.has_checkbox()
    &&& (h.ignores(m) || h.url_in(m.content@) is None)
}

/// Quiet messages leave a running collection as it was.
pub proof fn lemma_quiet_messages_change_nothing(h: Handler, g: GatheringView, page: Seq<ChatMessage>)
    requires
        g.stop_msg_link is None,
        forall|j: int| 0 <= j < page.len() ==> is_quiet(h, #[trigger] page[j]),
    ensures
        absorb_messages(h, g, page).entries == g.entries,
        absorb_messages(h, g, page).stop_msg_link is None,
    decreases page.len(),
{
    if page.len() > 0 {
        lemma_quiet_messages_change_nothing(h, g, page.drop_last());
        assert(is_quiet(h, page[page.len() - 1]));
    }
}

/// A running collection that gains nothing from a page and does not stop
/// read only quiet messages.
pub proof fn lemma_nothing_gained_means_quiet(h: Handler, g: GatheringView, page: Seq<ChatMessage>)
    requires
        g.stop_msg_link is None,
        absorb_messages(h, g, page).entries.len() == g.entries.len(),
        absorb_messages(h, g, page).stop_msg_link is None,
    ensures
        forall|j: int| 0 <= j < page.len() ==> is_quiet(h, #[trigger] page[j]),
    decreases page.len(),
{
    if page.len() > 0 {
        let init = page.drop_last();
        lemma_entries_come_from_page(h, g, init);
        let prev = absorb_messages(h, g, init);
        assert(absorb_messages(h, g, page) == absorb_message(h, prev, page.last()));
        assert(prev.stop_msg_link is None);
        lemma_nothing_gained_means_quiet(h, g, init);
        assert forall|j: int| 0 <= j < page.len() implies is_quiet(h, #[trigger] page[j]) by {
            if j < init.len() {
                assert(page[j] == init[j]);
            }
        }
    }
}

/// The first entry a running collection gains comes from a message before
/// which the page holds only quiet messages.
pub proof fn lemma_first_entry(h: Handler, g: GatheringView, page: Seq<ChatMessage>) -> (i0: int)
    requires
        g.stop_msg_link is None,
        absorb_messages(h, g, page).entries.len() > g.entries.len(),
    ensures
        0 <= i0 < page.len(),
        forall|j: int| 0 <= j < i0 ==> is_quiet(h, #[trigger] page[j]),
        collected_from(h, absorb_messages(h, g, page).entries[g.entries.len() as int], page[i0]),
    decreases page.len(),
{
    let init = page.drop_last();
    lemma_entries_come_from_page(h, g, init);
    lemma_entries_come_from_page(h, g, page);
    let prev = absorb_messages(h, g, init);
    let next = absorb_messages(h, g, page);
    assert(next == absorb_message(h, prev, page.last()));
    if prev.entries.len() > g.entries.len() {
        let i0 = lemma_first_entry(h, g, init);
        assert(next.entries[g.entries.len() as int] == prev.entries[g.entries.len() as int]);
        assert forall|j: int| 0 <= j < i0 implies is_quiet(h, #[trigger] page[j]) by {
            assert(page[j] == init[j]);
        }
        assert(page[i0] == init[i0]);
        i0
    } else {
        assert(prev.stop_msg_link is None);
        lemma_nothing_gained_means_quiet(h, g, init);
        assert forall|j: int| 0 <= j < page.len() - 1 implies is_quiet(h, #[trigger] page[j]) by {
            assert(page[j] == init[j]);
        }
        page.len() - 1
    }
}

/// Whether `id` is the message id of one of the entries.
pub open spec fn is_entry_id(entries: Seq<EntryView>, id: u64) -> bool {
    exists|k: int| 0 <= k < entries.len() && #[trigger] entries[k].msg_id == id
}

/// Whether `after` is the history `before` once the messages of the given
/// entries are checked: those messages keep their place, ids and content
/// location and carry a checkbox; every other message is unchanged.
pub open spec fn checked_off(before: Seq<ChatMessage>, after: Seq<ChatMessage>, entries: Seq<EntryView>) -> bool {
    &&& after.len() == before.len()
    &&& forall|i: int|
        0 <= i < before.len() ==> if is_entry_id(entries, #[trigger] before[i].id) {
            &&& after[i].id == before[i].id
            &&& after[i].channel_id == before[i].channel_id
            &&& after[i].guild_id == before[i].guild_id
            &&& after[i].has_checkbox()
        } else {
            after[i] == before[i]
        }
}

/// A collection started before the message `id`.
pub open spec fn fresh_gathering(id: u64) -> GatheringView {
    GatheringView { cursor: id, entries: Seq::empty(), stop_msg_link: None }
}

/// `!collect` right after a successful `!ack` collects nothing and stops at
/// the newest acknowledged message. The acknowledgement read `history`
/// (newest first, distinct ids) and found entries; it then put a checkbox on
/// each of their messages, giving `checked`. The channel has since gained
/// the bot's reply and, before it, the `!ack` message itself (in which the
/// link pattern finds nothing); neither carries a checkbox.
pub proof fn lemma_collect_after_ack(
    h: Handler,
    ack_id: u64,
    collect_id: u64,
    history: Seq<ChatMessage>,
    checked: Seq<ChatMessage>,
    reply: ChatMessage,
    ack_msg: ChatMessage,
)
    requires
        absorb_messages(h, fresh_gathering(ack_id), history).entries.len() > 0,
        distinct_ids(history),
        checked_off(history, checked, absorb_messages(h, fresh_gathering(ack_id), history).entries),
        reply.author_is_bot,
        !reply.has_checkbox(),
        !ack_msg.has_checkbox(),
        h.url_in(ack_msg.content@) is None,
    ensures
        ({
            let acked = absorb_messages(h, fresh_gathering(ack_id), history).entries;
            let collected = absorb_messages(h, fresh_gathering(collect_id), seq![reply, ack_msg] + checked);
            &&& collected.entries.len() == 0
            &&& exists|i: int|
                0 <= i < history.len() && history[i].id == acked[0].msg_id && collected.stop_msg_link == Some(
                    history[i].link_text(),
                )
        }),
{
    let g1 = fresh_gathering(ack_id);
    let acked = absorb_messages(h, g1, history).entries;
    let i0 = lemma_first_entry(h, g1, history);
    lemma_entries_come_from_page(h, g1, history);
    // the messages before the first acknowledged one are unchanged
    assert forall|j: int| 0 <= j < i0 implies checked[j] == history[j] by {
        assert(is_quiet(h, history[j]));
        if is_entry_id(acked, history[j].id) {
            let k = choose|k: int| 0 <= k < acked.len() && #[trigger] acked[k].msg_id == history[j].id;
            let i = choose|i: int| 0 <= i < history.len() && collected_from(h, acked[k], history[i]);
            assert(!is_quiet(h, history[i]));
            if i < i0 {
                assert(is_quiet(h, history[i]));
            }
            assert(i != j);
        }
    }
    assert(is_entry_id(acked, history[i0].id)) by {
        assert(acked[0].msg_id == history[i0].id);
    }
    let page = seq![reply, ack_msg] + checked;
    let g2 = fresh_gathering(collect_id);
    let quiet = page.take(i0 + 2);
    assert forall|j: int| 0 <= j < quiet.len() implies is_quiet(h, #[trigger] quiet[j]) by {
        if j >= 2 {
            assert(quiet[j] == checked[j - 2]);
            assert(is_quiet(h, history[j - 2]));
        }
    }
    lemma_quiet_messages_change_nothing(h, g2, quiet);
    let stop = page[i0 + 2];
    assert(stop == checked[i0]);
    let upto = page.take(i0 + 3);
    assert(upto.drop_last() =~= quiet);
    assert(upto.last() == stop);
    let after_stop = absorb_messages(h, g2, upto);
    assert(after_stop.stop_msg_link == Some(stop.link_text()));
    assert(stop.link_text() == history[i0].link_text());
    lemma_stopped_is_final(h, after_stop, page.skip(i0 + 3));
    assert(upto + page.skip(i0 + 3) =~= page);
    lemma_absorb_split(h, g2, upto, page.skip(i0 + 3));
    assert(after_stop.entries =~= Seq::<EntryView>::empty());
}

} // verus!

verus! {

/// A checkbox ends a collection wherever it stands among a message's
/// reactions: a message with a ✅ Unicode reaction at any position is a stop
/// message (so `Handler::is_stop_msg` returns `true` for it), and a running
/// collection that meets it stops there, with that message's link as the
/// stop link and its entries and cursor unchanged.
pub proof fn lemma_checkbox_anywhere_stops(h: Handler, g: GatheringView, m: ChatMessage, r: int)
    requires
        0 <= r < m.reactions.len(),
        m.reactions@[r] matches ReactionKind::Unicode(e) && e@ == crate::discord::UNICODE_CHECKBOX@,
        g.stop_msg_link is None,
    ensures
        m.has_checkbox(),
        absorb_message(h, g, m).stop_msg_link == Some(m.link_text()),
        absorb_message(h, g, m).entries == g.entries,
        absorb_message(h, g, m).cursor == g.cursor,
{
    assert(is_unicode(m.reactions@[r], crate::discord::UNICODE_CHECKBOX@));
}

} // verus!
