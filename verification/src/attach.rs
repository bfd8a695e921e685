//! The images of prompts: where their files may be, how far they are loaded,
//! and how far they are sent.
use vstd::prelude::*;

use crate::message::UserImageAttachment;
use crate::rows::{Row, RowKind};

verus! {

/// The devices that may hold the files of a chat's images.
pub open spec fn devices(
    in_pane: bool,
    chat: Option<Seq<char>>,
    local: Option<Seq<char>>,
) -> Seq<Seq<char>> {
    if in_pane {
        Seq::empty()
    } else {
        match (chat, local) {
            (Some(c), Some(l)) => if c == l {
                seq![c]
            } else {
                seq![c, l]
            },
            (Some(c), None) => seq![c],
            (None, Some(l)) => seq![l],
            (None, None) => Seq::empty(),
        }
    }
}

/// The devices that may hold the files of a chat's images: the chat's host,
/// then this one, each once. A transcript in the right pane has no chat and
/// claims none.
pub fn attachment_device_ids(in_pane: bool, chat: &Option<String>, local: &Option<String>) -> (r: Vec<
    String,
>)
    ensures
        crate::text::texts(r@) == devices(
            in_pane,
            crate::markdown::opt_text(*chat),
            crate::markdown::opt_text(*local),
        ),
{
    let mut ids: Vec<String> = Vec::new();
    if !in_pane {
        if let Some(c) = chat {
            ids.push(c.clone());
        }
        if let Some(l) = local {
            let known = match chat {
                Some(c) => *c == *l,
                None => false,
            };
            if !known {
                ids.push(l.clone());
            }
        }
    }
    assert(crate::text::texts(ids@) =~= devices(
        in_pane,
        crate::markdown::opt_text(*chat),
        crate::markdown::opt_text(*local),
    ));
    ids
}

/// The device to fetch a file from by relay: another one than this.
pub fn relay_target(local: &Option<String>, device_id: &str) -> (r: Option<String>)
    ensures
        crate::markdown::opt_text(r) == if crate::markdown::opt_text(*local) == Some(device_id@) {
            None
        } else {
            Some(device_id@)
        },
{
    let here = match local {
        Some(l) => *l == device_id.to_owned(),
        None => false,
    };
    if here {
        None
    } else {
        Some(device_id.to_owned())
    }
}

/// How an image stands on one device.
#[derive(Debug, Clone, Copy, PartialEq, Eq, Structural)]
pub enum Snapshot {
    Loaded,
    Loading,
    /// It failed; the next try is in so many milliseconds.
    Error { retry_in: u64 },
}

/// How an image stands over all its devices.
#[derive(Debug, Clone, Copy, PartialEq, Eq, Structural)]
pub enum Thumb {
    /// The device at this place has it.
    Loaded { device: usize },
    Loading,
    /// It failed everywhere; without a time for the next try there is no device
    /// to ask.
    Error { retry_in: Option<u64> },
}

/// The first device that has the image.
pub open spec fn first_loaded(s: Seq<Snapshot>) -> Option<int>
    decreases s.len(),
{
    if s.len() == 0 {
        None
    } else {
        let before = first_loaded(s.drop_last());
        if before is Some {
            before
        } else if s.last() == Snapshot::Loaded {
            Some(s.len() - 1)
        } else {
            None
        }
    }
}

/// Whether a device is loading the image.
pub open spec fn any_loading(s: Seq<Snapshot>) -> bool {
    s.contains(Snapshot::Loading)
}

/// The soonest next try.
pub open spec fn soonest(s: Seq<Snapshot>) -> Option<u64>
    decreases s.len(),
{
    if s.len() == 0 {
        None
    } else {
        let before = soonest(s.drop_last());
        match (s.last(), before) {
            (Snapshot::Error { retry_in }, Some(b)) => if retry_in < b {
                Some(retry_in)
            } else {
                Some(b)
            },
            (Snapshot::Error { retry_in }, None) => Some(retry_in),
            (_, b) => b,
        }
    }
}

/// How an image stands over all its devices.
pub open spec fn thumb_of(s: Seq<Snapshot>) -> Thumb {
    match first_loaded(s) {
        Some(i) => Thumb::Loaded { device: i as usize },
        None => if any_loading(s) {
            Thumb::Loading
        } else {
            Thumb::Error { retry_in: soonest(s) }
        },
    }
}

proof fn lemma_first_grows(s: Seq<Snapshot>, n: int)
    requires
        0 <= n <= s.len(),
        first_loaded(s.take(n)) is Some,
    ensures
        first_loaded(s) == first_loaded(s.take(n)),
    decreases s.len() - n,
{
    if n < s.len() {
        assert(s.take(n + 1).drop_last() =~= s.take(n));
        lemma_first_grows(s, n + 1);
    } else {
        assert(s.take(n) =~= s);
    }
}

/// How an image stands over all its devices: the first that has it gives it;
/// else it is loading as long as one of them loads, and failed once all have,
/// with the soonest of their next tries.
pub fn attachment_state(states: &Vec<Snapshot>) -> (r: Thumb)
    ensures
        r == thumb_of(states@),
{
    let mut loading = false;
    let mut retry: Option<u64> = None;
    let mut i: usize = 0;
    assert(states@.take(0) =~= Seq::empty());
    while i < states.len()
        invariant
            i <= states@.len(),
            first_loaded(states@.take(i as int)) is None,
            loading == any_loading(states@.take(i as int)),
            retry == soonest(states@.take(i as int)),
        decreases states.len() - i,
    {
        let ghost now = states@.take(i as int);
        let ghost next = states@.take(i + 1);
        assert(next.drop_last() =~= now);
        assert(next.last() == states@[i as int]);
        assert(next =~= now.push(states@[i as int]));
        match states[i] {
            Snapshot::Loaded => {
                proof {
                    lemma_first_grows(states@, i + 1);
                }
                return Thumb::Loaded { device: i };
            },
            Snapshot::Loading => {
                assert(next[i as int] == Snapshot::Loading);
                loading = true;
            },
            Snapshot::Error { retry_in } => {
                proof {
                    if any_loading(now) {
                        let j = choose|j: int| 0 <= j < now.len() && now[j] == Snapshot::Loading;
                        assert(next[j] == Snapshot::Loading);
                    }
                    if any_loading(next) {
                        let j = choose|j: int| 0 <= j < next.len() && next[j] == Snapshot::Loading;
                        assert(now[j] == Snapshot::Loading);
                    }
                }
                retry = match retry {
                    Some(b) => if retry_in < b {
                        Some(retry_in)
                    } else {
                        Some(b)
                    },
                    None => Some(retry_in),
                };
            },
        }
        i = i + 1;
    }
    assert(states@.take(i as int) =~= states@);
    if loading {
        Thumb::Loading
    } else {
        Thumb::Error { retry_in: retry }
    }
}

/// An image that a device has shows, whatever the other devices say.
pub proof fn law_a_loaded_image_shows(s: Seq<Snapshot>, i: int)
    requires
        0 <= i < s.len(),
        s[i] == Snapshot::Loaded,
    ensures
        thumb_of(s) is Loaded,
    decreases s.len(),
{
    if i < s.len() - 1 {
        assert(s.drop_last()[i] == Snapshot::Loaded);
        law_a_loaded_image_shows(s.drop_last(), i);
    }
}

// ---------------------------------------------------------------------------
// Retries
// ---------------------------------------------------------------------------

/// What a pair of texts holds.
pub open spec fn pair_view(p: (String, String)) -> (Seq<char>, Seq<char>) {
    (p.0@, p.1@)
}

/// What a sequence of pairs holds.
pub open spec fn pair_views(s: Seq<(String, String)>) -> Seq<(Seq<char>, Seq<char>)> {
    Seq::new(s.len(), |i: int| pair_view(s[i]))
}

/// The images, by device and path, that a next try is due for.
pub struct RetrySet {
    due: Vec<(String, String)>,
}

impl View for RetrySet {
    type V = Set<(Seq<char>, Seq<char>)>;

    closed spec fn view(&self) -> Set<(Seq<char>, Seq<char>)> {
        pair_views(self.due@).to_set()
    }
}

/// How long after its time a retry looks, in milliseconds.
pub const RETRY_SLACK_MS: u64 = 60;

impl RetrySet {
    /// Nothing due.
    pub fn new() -> (r: Self)
        ensures
            r@ == Set::<(Seq<char>, Seq<char>)>::empty(),
    {
        let r = RetrySet { due: Vec::new() };
        assert(pair_views(r.due@) =~= Seq::empty());
        assert(r@ =~= Set::empty());
        r
    }

    fn find(&self, device: &str, path: &str) -> (r: Option<usize>)
        ensures
            match r {
                Some(i) => i < self.due@.len() && pair_view(self.due@[i as int]) == (
                    device@,
                    path@,
                ),
                None => !self@.contains((device@, path@)),
            },
    {
        let d = device.to_owned();
        let p = path.to_owned();
        let ghost views = pair_views(self.due@);
        let mut i: usize = 0;
        while i < self.due.len()
            invariant
                i <= self.due@.len(),
                d@ == device@,
                p@ == path@,
                views == pair_views(self.due@),
                forall|j: int| 0 <= j < i ==> #[trigger] views[j] != (device@, path@),
            decreases self.due.len() - i,
        {
            assert(views[i as int] == pair_view(self.due@[i as int]));
            if self.due[i].0 == d && self.due[i].1 == p {
                return Some(i);
            }
            i = i + 1;
        }
        assert(!views.contains((device@, path@)));
        None
    }

    /// Asks for a next try. Gives the milliseconds to wait, where none is due
    /// already.
    pub fn schedule(&mut self, device: &str, path: &str, retry_in: u64) -> (r: Option<u64>)
        ensures
            r == if old(self)@.contains((device@, path@)) {
                None
            } else {
                Some(crate::chips::whole(retry_in as nat + RETRY_SLACK_MS as nat))
            },
            final(self)@ == old(self)@.insert((device@, path@)),
    {
        let ghost before = pair_views(self.due@);
        if let Some(i) = self.find(device, path) {
            assert(before[i as int] == (device@, path@));
            assert(before.contains((device@, path@)));
            assert(self@ =~= old(self)@.insert((device@, path@)));
            return None;
        }
        let pair = (device.to_owned(), path.to_owned());
        let ghost added = pair_view(pair);
        self.due.push(pair);
        proof {
            let after = pair_views(self.due@);
            assert(after =~= before.push(added));
            assert forall|k: (Seq<char>, Seq<char>)|
                after.contains(k) == (before.contains(k) || k == added) by {
                if before.contains(k) {
                    let j = choose|j: int| 0 <= j < before.len() && before[j] == k;
                    assert(after[j] == k);
                }
                if k == added {
                    assert(after[before.len() as int] == k);
                }
                if after.contains(k) && k != added {
                    let j = choose|j: int| 0 <= j < after.len() && after[j] == k;
                    assert(before[j] == k);
                }
            }
            assert(self@ =~= old(self)@.insert((device@, path@)));
        }
        if retry_in > u64::MAX - 60 {
            Some(u64::MAX)
        } else {
            Some(retry_in + 60)
        }
    }

    /// The next try is made.
    pub fn wake(&mut self, device: &str, path: &str)
        ensures
            final(self)@ == old(self)@.remove((device@, path@)),
    {
        let d = device.to_owned();
        let p = path.to_owned();
        let mut left: Vec<(String, String)> = Vec::new();
        let ghost all = pair_views(self.due@);
        let ghost gone = (device@, path@);
        let mut i: usize = 0;
        while i < self.due.len()
            invariant
                i <= self.due@.len(),
                d@ == device@,
                p@ == path@,
                gone == (device@, path@),
                all == pair_views(self.due@),
                forall|k: (Seq<char>, Seq<char>)| #[trigger]
                    pair_views(left@).contains(k) == (k != gone && all.take(i as int).contains(k)),
            decreases self.due.len() - i,
        {
            let ghost had = pair_views(left@);
            let ghost now = all.take(i as int);
            let ghost item = pair_view(self.due@[i as int]);
            assert(all.take(i + 1) =~= now.push(item));
            let pair = (self.due[i].0.clone(), self.due[i].1.clone());
            if !(pair.0 == d && pair.1 == p) {
                assert(pair_view(pair) == item);
                left.push(pair);
                assert(pair_views(left@) =~= had.push(item));
            }
            proof {
                assert forall|k: (Seq<char>, Seq<char>)| #[trigger]
                    pair_views(left@).contains(k) == (k != gone && all.take(i + 1).contains(k)) by {
                    lemma_contains_push(now, item, k);
                    lemma_contains_push(had, item, k);
                    assert(had.contains(k) == (k != gone && now.contains(k)));
                }
            }
            i = i + 1;
        }
        self.due = left;
        assert(all.take(i as int) =~= all);
        assert(self@ =~= old(self)@.remove(gone));
    }
}

proof fn lemma_contains_push<T>(s: Seq<T>, x: T, k: T)
    ensures
        s.push(x).contains(k) == (s.contains(k) || k == x),
{
    if s.contains(k) {
        let j = choose|j: int| 0 <= j < s.len() && s[j] == k;
        assert(s.push(x)[j] == k);
    }
    if k == x {
        assert(s.push(x)[s.len() as int] == k);
    }
    if s.push(x).contains(k) && k != x {
        let j = choose|j: int| 0 <= j < s.push(x).len() && s.push(x)[j] == k;
        assert(s[j] == k);
    }
}

// ---------------------------------------------------------------------------
// Images that must stay
// ---------------------------------------------------------------------------

/// The files of one image, over all devices.
pub open spec fn image_keys(path: Seq<char>, devs: Seq<Seq<char>>) -> Seq<(Seq<char>, Seq<char>)>
    decreases devs.len(),
{
    if devs.len() == 0 {
        Seq::empty()
    } else {
        image_keys(path, devs.drop_last()).push((devs.last(), path))
    }
}

/// The files of a prompt's images.
pub open spec fn images_keys(atts: Seq<UserImageAttachment>, devs: Seq<Seq<char>>) -> Seq<
    (Seq<char>, Seq<char>),
>
    decreases atts.len(),
{
    if atts.len() == 0 {
        Seq::empty()
    } else {
        images_keys(atts.drop_last(), devs) + image_keys(atts.last().path@, devs)
    }
}

/// The files of the images of a transcript's prompts.
pub open spec fn shown_keys(rows: Seq<crate::rows::RowView>, devs: Seq<Seq<char>>) -> Seq<
    (Seq<char>, Seq<char>),
>
    decreases rows.len(),
{
    if rows.len() == 0 {
        Seq::empty()
    } else {
        let before = shown_keys(rows.drop_last(), devs);
        match rows.last().kind {
            crate::rows::KindView::User { attachments, .. } => before + images_keys(
                attachments@,
                devs,
            ),
            _ => before,
        }
    }
}

fn push_image(out: &mut Vec<(String, String)>, path: &String, devs: &Vec<String>)
    ensures
        pair_views(final(out)@) == pair_views(old(out)@) + image_keys(
            path@,
            crate::text::texts(devs@),
        ),
{
    let ghost before = pair_views(out@);
    let ghost views = crate::text::texts(devs@);
    let mut i: usize = 0;
    assert(views.take(0) =~= Seq::empty());
    assert(before + image_keys(path@, views.take(0)) =~= before);
    while i < devs.len()
        invariant
            i <= devs@.len(),
            views == crate::text::texts(devs@),
            pair_views(out@) == before + image_keys(path@, views.take(i as int)),
        decreases devs.len() - i,
    {
        let ghost had = out@;
        assert(views.take(i + 1).drop_last() =~= views.take(i as int));
        assert(views.take(i + 1).last() == devs@[i as int]@);
        let pair = (devs[i].clone(), path.clone());
        let ghost item = pair_view(pair);
        out.push(pair);
        assert(pair_views(out@) =~= pair_views(had).push(item));
        assert(before + image_keys(path@, views.take(i as int)).push(item) =~= (before + image_keys(
            path@,
            views.take(i as int),
        )).push(item));
        i = i + 1;
    }
    assert(views.take(i as int) =~= views);
}

fn push_images(out: &mut Vec<(String, String)>, atts: &Vec<UserImageAttachment>, devs: &Vec<String>)
    ensures
        pair_views(final(out)@) == pair_views(old(out)@) + images_keys(
            atts@,
            crate::text::texts(devs@),
        ),
{
    let ghost before = pair_views(out@);
    let ghost views = crate::text::texts(devs@);
    let mut i: usize = 0;
    assert(atts@.take(0) =~= Seq::empty());
    assert(before + images_keys(atts@.take(0), views) =~= before);
    while i < atts.len()
        invariant
            i <= atts@.len(),
            views == crate::text::texts(devs@),
            pair_views(out@) == before + images_keys(atts@.take(i as int), views),
        decreases atts.len() - i,
    {
        assert(atts@.take(i + 1).drop_last() =~= atts@.take(i as int));
        assert(atts@.take(i + 1).last() == atts@[i as int]);
        push_image(out, &atts[i].path, devs);
        assert(before + (images_keys(atts@.take(i as int), views) + image_keys(
            atts@[i as int].path@,
            views,
        )) =~= before + images_keys(atts@.take(i as int), views) + image_keys(
            atts@[i as int].path@,
            views,
        ));
        i = i + 1;
    }
    assert(atts@.take(i as int) =~= atts@);
}

/// The files that the image cache must keep while a transcript shows: each image
/// of its prompts, on each device that may hold it.
pub fn protected_attachments(rows: &Vec<Row>, devs: &Vec<String>) -> (r: Vec<(String, String)>)
    ensures
        pair_views(r@) == shown_keys(crate::rows::row_views(rows@), crate::text::texts(devs@)),
{
    let mut out: Vec<(String, String)> = Vec::new();
    let ghost views = crate::rows::row_views(rows@);
    let mut i: usize = 0;
    assert(views.take(0) =~= Seq::empty());
    assert(pair_views(out@) =~= Seq::empty());
    while i < rows.len()
        invariant
            i <= rows@.len(),
            views == crate::rows::row_views(rows@),
            pair_views(out@) == shown_keys(views.take(i as int), crate::text::texts(devs@)),
        decreases rows.len() - i,
    {
        assert(views.take(i + 1).drop_last() =~= views.take(i as int));
        assert(views.take(i + 1).last() == rows@[i as int]@);
        if let RowKind::User { attachments, .. } = &rows[i].kind {
            push_images(&mut out, attachments, devs);
        }
        i = i + 1;
    }
    assert(views.take(i as int) =~= views);
    out
}

// ---------------------------------------------------------------------------
// Images on their way
// ---------------------------------------------------------------------------

/// Whether a text starts with another.
pub open spec fn starts(s: Seq<char>, head: Seq<char>) -> bool {
    s.len() >= head.len() && s.take(head.len() as int) == head
}

fn starts_with(s: &Vec<char>, head: &str) -> (r: bool)
    ensures
        r == starts(s@, head@),
{
    let h = crate::text::chars_of(head);
    if s.len() < h.len() {
        return false;
    }
    let mut i: usize = 0;
    while i < h.len()
        invariant
            i <= h@.len() <= s@.len(),
            h@ == head@,
            forall|j: int| 0 <= j < i ==> s@[j] == h@[j],
        decreases h.len() - i,
    {
        if s[i] != h[i] {
            assert(s@.take(h@.len() as int)[i as int] != head@[i as int]);
            return false;
        }
        i = i + 1;
    }
    assert(s@.take(h@.len() as int) =~= head@);
    true
}

/// Whether an image is still being sent, by its path.
pub open spec fn is_pending(path: Seq<char>) -> bool {
    starts(path, "pending://"@) || starts(path, "pending/"@)
}

/// What stands before the first slash; nothing where there is none.
pub open spec fn before_slash(s: Seq<char>) -> Option<Seq<char>>
    decreases s.len(),
{
    if s.len() == 0 {
        None
    } else {
        let before = before_slash(s.drop_last());
        if before is Some {
            before
        } else if s.last() == '/' {
            Some(s.drop_last())
        } else {
            None
        }
    }
}

/// The upload that a pending path names: `pending://{upload}/{name}`.
pub open spec fn upload_of(path: Seq<char>) -> Option<Seq<char>> {
    if starts(path, "pending://"@) {
        before_slash(path.skip("pending://"@.len() as int))
    } else {
        None
    }
}

proof fn lemma_before_slash_grows(s: Seq<char>, n: int)
    requires
        0 <= n <= s.len(),
        before_slash(s.take(n)) is Some,
    ensures
        before_slash(s) == before_slash(s.take(n)),
    decreases s.len() - n,
{
    if n < s.len() {
        assert(s.take(n + 1).drop_last() =~= s.take(n));
        lemma_before_slash_grows(s, n + 1);
    } else {
        assert(s.take(n) =~= s);
    }
}

/// Whether an image is still being sent.
pub fn is_sending(path: &str) -> (r: bool)
    ensures
        r == is_pending(path@),
{
    let v = crate::text::chars_of(path);
    starts_with(&v, "pending://") || starts_with(&v, "pending/")
}

/// The upload that a pending path names.
pub fn upload_id(path: &str) -> (r: Option<String>)
    ensures
        crate::markdown::opt_text(r) == upload_of(path@),
{
    let v = crate::text::chars_of(path);
    if !starts_with(&v, "pending://") {
        return None;
    }
    let head = crate::text::chars_of("pending://");
    let start: usize = head.len();
    let ghost rest = path@.skip(start as int);
    let mut i: usize = start;
    assert(rest.take(0) =~= Seq::empty());
    while i < v.len()
        invariant
            start <= i <= v@.len(),
            v@ == path@,
            start == "pending://"@.len(),
            starts(path@, "pending://"@),
            rest == path@.skip(start as int),
            before_slash(rest.take(i - start)) is None,
        decreases v.len() - i,
    {
        assert(rest.take(i - start + 1).drop_last() =~= rest.take(i - start));
        assert(rest.take(i - start + 1).last() == v@[i as int]);
        if v[i] == '/' {
            let id = crate::text::text_between(&v, start, i);
            assert(id@ =~= rest.take(i - start));
            proof {
                lemma_before_slash_grows(rest, i - start + 1);
            }
            return Some(id);
        }
        i = i + 1;
    }
    assert(rest.take(i - start) =~= rest);
    None
}

/// How far an image is sent, in percent: its own transfer tells, else, while it
/// is being sent, the whole send.
pub fn upload_percent(path: &str, transfer: Option<u8>, send: Option<u8>) -> (r: Option<u8>)
    ensures
        r == if upload_of(path@) is Some && transfer is Some {
            transfer
        } else if is_pending(path@) {
            send
        } else {
            None
        },
{
    if upload_id(path).is_some() && transfer.is_some() {
        transfer
    } else if is_sending(path) {
        send
    } else {
        None
    }
}

} // verus!
