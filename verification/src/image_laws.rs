//! What holds of what a row shows around its content, and of the images of
//! prompts.
use vstd::prelude::*;

use crate::attach::{Snapshot, Thumb};
use crate::message::{MentionSpan, UserImageAttachment};
use crate::rows::{KindView, RowView};
use crate::rowset::RowGap;
use crate::rowview::{BubbleRun, TopGap};

verus! {

// ---------------------------------------------------------------------------
// Gaps
// ---------------------------------------------------------------------------

/// The first row rests below the titlebar, or at the top of the pane; every other
/// has the gap to the row before it.
pub proof fn law_the_first_row_rests_at_the_top(rows: Seq<RowView>, ix: int, in_pane: bool)
    requires
        0 < ix < rows.len(),
    ensures
        crate::rowview::top_gap(rows, 0, true) == TopGap::PaneTop,
        crate::rowview::top_gap(rows, 0, false) == TopGap::BelowTitlebar,
        crate::rowview::top_gap(rows, ix, in_pane) == TopGap::Between(
            crate::rowset::gap_above(Some(rows[ix - 1]), rows[ix]),
        ),
{
}

/// A row that opens a turn has the turn's gap, whatever stands above it, and no
/// other row has it.
pub proof fn law_turns_have_their_gap(prev: Option<RowView>, row: RowView)
    ensures
        crate::rowset::gap_above(prev, row) == RowGap::Turn <==> row.turn_start,
{
}

/// Within a turn, markdown rows of one part stand as close as blocks do; a tool
/// group keeps its step to the rows above and below it; and all others are one
/// row's gap apart.
pub proof fn law_blocks_of_a_part_stand_close(prev: RowView, row: RowView)
    requires
        !row.turn_start,
    ensures
        ({
            let gap = crate::rowset::gap_above(Some(prev), row);
            let blocks = crate::rowset::is_markdown(prev.kind) && crate::rowset::is_markdown(
                row.kind,
            );
            &&& gap == RowGap::MarkdownBlock <==> blocks && crate::rowset::prefix_of(prev.id)
                == crate::rowset::prefix_of(row.id)
            &&& gap == RowGap::Tools <==> prev.kind is ToolGroup || row.kind is ToolGroup
            &&& prev.kind is User && row.kind is Markdown ==> gap == RowGap::Row
        }),
        crate::rowset::gap_above(None, row) == RowGap::Tools <==> row.kind is ToolGroup,
        crate::rowset::gap_above(None, row) != RowGap::MarkdownBlock,
{
}

/// The part that an id names is what stands before its last period: an id made of
/// a part, a period and a text without periods names that part.
pub proof fn law_an_id_names_its_part(part: Seq<char>, block: Seq<char>)
    requires
        !block.contains('.'),
    ensures
        crate::rowset::prefix_of(part.push('.') + block) == part,
    decreases block.len(),
{
    let id = part.push('.') + block;
    if block.len() == 0 {
        assert(id =~= part.push('.'));
        assert(id.take(part.len() as int) =~= part);
    } else {
        let less = block.drop_last();
        assert(!less.contains('.')) by {
            if less.contains('.') {
                let i = choose|i: int| 0 <= i < less.len() && less[i] == '.';
                assert(block[i] == '.');
            }
        }
        law_an_id_names_its_part(part, less);
        assert(id.drop_last() =~= part.push('.') + less);
        assert(id.last() == block[block.len() - 1]);
        let at = crate::rowset::last_dot(part.push('.') + less);
        lemma_dot_before(part.push('.'), less);
        assert(id.take(part.len() as int) =~= part);
        assert((part.push('.') + less).take(part.len() as int) =~= part);
    }
}

proof fn lemma_dot_before(head: Seq<char>, tail: Seq<char>)
    requires
        head.len() > 0,
        head.last() == '.',
        !tail.contains('.'),
    ensures
        crate::rowset::last_dot(head + tail) == Some(head.len() - 1),
    decreases tail.len(),
{
    if tail.len() == 0 {
        assert(head + tail =~= head);
    } else {
        let less = tail.drop_last();
        assert(!less.contains('.')) by {
            if less.contains('.') {
                let i = choose|i: int| 0 <= i < less.len() && less[i] == '.';
                assert(tail[i] == '.');
            }
        }
        lemma_dot_before(head, less);
        assert((head + tail).drop_last() =~= head + less);
        assert((head + tail).last() == tail[tail.len() - 1]);
    }
}

// ---------------------------------------------------------------------------
// The bubble's text
// ---------------------------------------------------------------------------

/// Whether run `i` is the chip of a mention: it stands at the mention's place and
/// is as long.
pub open spec fn chip_stands(runs: Seq<BubbleRun>, i: int, span: MentionSpan) -> bool {
    &&& 0 <= i < runs.len()
    &&& runs[i].chip
    &&& crate::rowview::covered(runs.take(i)) == span.range.start
    &&& runs[i].len == span.range.end - span.range.start
}

/// How many of the runs are chips.
pub open spec fn chips_among(runs: Seq<BubbleRun>) -> nat
    decreases runs.len(),
{
    if runs.len() == 0 {
        0
    } else {
        chips_among(runs.drop_last()) + if runs.last().chip {
            1nat
        } else {
            0
        }
    }
}

proof fn lemma_chip_stays(runs: Seq<BubbleRun>, more: BubbleRun, i: int, span: MentionSpan)
    requires
        chip_stands(runs, i, span),
    ensures
        chip_stands(runs.push(more), i, span),
{
    assert(runs.push(more).take(i) =~= runs.take(i));
}

proof fn lemma_chips_stand(spans: Seq<MentionSpan>, len: nat, k: int)
    requires
        crate::rowview::in_order(spans, len),
        len <= usize::MAX,
        0 <= k < spans.len(),
    ensures
        exists|i: int| chip_stands(crate::rowview::span_runs(spans), i, spans[k]),
    decreases spans.len(),
{
    let init = spans.drop_last();
    let before = crate::rowview::span_runs(init);
    let at = crate::rowview::spans_end(init);
    let start = spans.last().range.start;
    let gap = BubbleRun { len: (start - at) as usize, chip: false };
    let filled = if at < start {
        before.push(gap)
    } else {
        before
    };
    let runs = crate::rowview::span_runs(spans);
    assert(runs == filled.push(crate::rowview::chip_run(spans.last())));
    if k < init.len() {
        lemma_chips_stand(init, len, k);
        let i = choose|i: int| chip_stands(before, i, init[k]);
        if at < start {
            lemma_chip_stays(before, gap, i, spans[k]);
        }
        lemma_chip_stays(filled, crate::rowview::chip_run(spans.last()), i, spans[k]);
    } else {
        crate::rowview::lemma_spans_covered(init, len);
        assert(before.push(gap).drop_last() =~= before);
        if init.len() > 0 {
            assert(spans[init.len() - 1].range.end <= spans[spans.len() - 1].range.start);
        }
        assert(runs.take(filled.len() as int) =~= filled);
        assert(chip_stands(runs, filled.len() as int, spans[k]));
    }
}

proof fn lemma_chips_counted(spans: Seq<MentionSpan>)
    ensures
        chips_among(crate::rowview::span_runs(spans)) == spans.len(),
    decreases spans.len(),
{
    if spans.len() > 0 {
        let init = spans.drop_last();
        lemma_chips_counted(init);
        let before = crate::rowview::span_runs(init);
        let at = crate::rowview::spans_end(init);
        let start = spans.last().range.start;
        let gap = BubbleRun { len: (start - at) as usize, chip: false };
        assert(before.push(gap).drop_last() =~= before);
        let filled = if at < start {
            before.push(gap)
        } else {
            before
        };
        let runs = filled.push(crate::rowview::chip_run(spans.last()));
        assert(runs.drop_last() =~= filled);
        assert(runs == crate::rowview::span_runs(spans));
        if at < start {
            assert(chips_among(filled) == chips_among(before));
        }
        assert(runs.last().chip);
        assert(chips_among(runs) == chips_among(filled) + 1);
    }
}

/// In a text whose mentions stand in order, each mention has a chip at its own
/// place and of its own length, and there are no other chips.
pub proof fn law_mentions_have_their_chips(len: usize, spans: Seq<MentionSpan>, k: int)
    requires
        crate::rowview::in_order(spans, len as nat),
        0 <= k < spans.len(),
    ensures
        exists|i: int|
            chip_stands(crate::rowview::bubble_runs_of(len as nat, spans), i, spans[k]),
        chips_among(crate::rowview::bubble_runs_of(len as nat, spans)) == spans.len(),
{
    lemma_chips_stand(spans, len as nat, k);
    lemma_chips_counted(spans);
    let runs = crate::rowview::span_runs(spans);
    let i = choose|i: int| chip_stands(runs, i, spans[k]);
    let at = crate::rowview::spans_end(spans);
    let all = crate::rowview::bubble_runs_of(len as nat, spans);
    if at < len {
        let rest = BubbleRun { len: (len - at) as usize, chip: false };
        lemma_chip_stays(runs, rest, i, spans[k]);
        assert(runs.push(rest).drop_last() =~= runs);
        assert(all == runs.push(rest));
    } else {
        assert(all == runs);
    }
    assert(chip_stands(all, i, spans[k]));
}

// ---------------------------------------------------------------------------
// Where images are
// ---------------------------------------------------------------------------

/// An image may lie on the chat's device and on this one, and on no other; the
/// chat's is asked first, and none is asked twice. In the pane none is asked.
pub proof fn law_a_chats_device_is_asked_first(
    chat: Option<Seq<char>>,
    local: Option<Seq<char>>,
    d: Seq<char>,
)
    ensures
        crate::attach::devices(false, chat, local).contains(d) <==> chat == Some(d) || local
            == Some(d),
        chat matches Some(c) ==> crate::attach::devices(false, chat, local)[0] == c,
        crate::attach::devices(false, chat, local).no_duplicates(),
        crate::attach::devices(true, chat, local).len() == 0,
{
    let ids = crate::attach::devices(false, chat, local);
    if let Some(c) = chat {
        assert(ids[0] == c);
        assert(ids.contains(c));
        if let Some(l) = local {
            if c != l {
                assert(ids[1] == l);
            }
            assert(ids.contains(l));
        }
    } else if let Some(l) = local {
        assert(ids[0] == l);
        assert(ids.contains(l));
    }
}

/// What an image shows: of the first device that has it, where one has it; that
/// it is loading while one loads it; and else the soonest of the next tries, with
/// none where there is no device.
pub proof fn law_an_image_shows_the_best_of_its_devices(s: Seq<Snapshot>, i: int)
    requires
        0 <= i < s.len() <= usize::MAX,
    ensures
        crate::attach::thumb_of(s) matches Thumb::Loaded { device } ==> device < s.len()
            && s[device as int] == Snapshot::Loaded && (i < device ==> s[i] != Snapshot::Loaded),
        crate::attach::thumb_of(s) == Thumb::Loading <==> !s.contains(Snapshot::Loaded)
            && s.contains(Snapshot::Loading),
        crate::attach::thumb_of(s) matches Thumb::Error { retry_in } ==> s[i] is Error
            && retry_in is Some && retry_in->0 <= s[i]->retry_in && s.contains(
            Snapshot::Error { retry_in: retry_in->0 },
        ),
        crate::attach::thumb_of(Seq::empty()) == (Thumb::Error { retry_in: None }),
{
    lemma_first_loaded(s);
    lemma_soonest(s);
    match crate::attach::first_loaded(s) {
        Some(k) => {
            assert(s[k] == Snapshot::Loaded);
        },
        None => {},
    }
}

proof fn lemma_first_loaded(s: Seq<Snapshot>)
    ensures
        match crate::attach::first_loaded(s) {
            Some(k) => 0 <= k < s.len() && s[k] == Snapshot::Loaded && forall|j: int|
                0 <= j < k ==> #[trigger] s[j] != Snapshot::Loaded,
            None => forall|j: int| 0 <= j < s.len() ==> #[trigger] s[j] != Snapshot::Loaded,
        },
    decreases s.len(),
{
    if s.len() > 0 {
        let init = s.drop_last();
        lemma_first_loaded(init);
        match crate::attach::first_loaded(init) {
            Some(k) => {
                assert forall|j: int| 0 <= j < k implies #[trigger] s[j] != Snapshot::Loaded by {
                    assert(init[j] == s[j]);
                }
            },
            None => {
                assert forall|j: int| 0 <= j < init.len() implies #[trigger] s[j]
                    != Snapshot::Loaded by {
                    assert(init[j] == s[j]);
                }
            },
        }
    }
}

proof fn lemma_soonest(s: Seq<Snapshot>)
    ensures
        match crate::attach::soonest(s) {
            Some(n) => s.contains(Snapshot::Error { retry_in: n }) && forall|j: int|
                0 <= j < s.len() ==> (#[trigger] s[j] matches Snapshot::Error { retry_in } ==> n
                    <= retry_in),
            None => forall|j: int| 0 <= j < s.len() ==> #[trigger] s[j] !is Error,
        },
    decreases s.len(),
{
    if s.len() > 0 {
        let init = s.drop_last();
        lemma_soonest(init);
        assert forall|j: int| 0 <= j < init.len() implies #[trigger] s[j] == init[j] by {}
        if let Some(b) = crate::attach::soonest(init) {
            let k = choose|k: int|
                0 <= k < init.len() && init[k] == (Snapshot::Error { retry_in: b });
            assert(s[k] == (Snapshot::Error { retry_in: b }));
        }
        if let Snapshot::Error { retry_in } = s.last() {
            assert(s[s.len() - 1] == (Snapshot::Error { retry_in }));
        }
        let n = crate::attach::soonest(s);
        assert forall|j: int| 0 <= j < s.len() && n is Some implies (
        #[trigger] s[j] matches Snapshot::Error { retry_in } ==> n->0 <= retry_in) by {
            if j < init.len() {
                assert(s[j] == init[j]);
            }
        }
        assert forall|j: int| 0 <= j < s.len() && n is None implies #[trigger] s[j] !is Error by {
            if j < init.len() {
                assert(s[j] == init[j]);
            }
        }
    }
}

/// Whether an image with this path stands among a prompt's.
pub open spec fn has_image(atts: Seq<UserImageAttachment>, path: Seq<char>) -> bool {
    exists|i: int| 0 <= i < atts.len() && (#[trigger] atts[i]).path@ == path
}

/// Whether a row is a prompt with an image of this path.
pub open spec fn shows_image(row: RowView, path: Seq<char>) -> bool {
    row.kind matches KindView::User { attachments, .. } && has_image(attachments@, path)
}

/// The files that are kept for a transcript are those of all images that its
/// prompts show, on every device, and no others.
pub proof fn law_every_shown_image_is_kept(
    rows: Seq<RowView>,
    devs: Seq<Seq<char>>,
    dev: Seq<char>,
    path: Seq<char>,
)
    ensures
        crate::attach::shown_keys(rows, devs).contains((dev, path)) <==> devs.contains(dev)
            && exists|i: int| 0 <= i < rows.len() && shows_image(#[trigger] rows[i], path),
    decreases rows.len(),
{
    let keys = crate::attach::shown_keys(rows, devs);
    if rows.len() > 0 {
        let init = rows.drop_last();
        law_every_shown_image_is_kept(init, devs, dev, path);
        let before = crate::attach::shown_keys(init, devs);
        if let KindView::User { attachments, .. } = rows.last().kind {
            let mine = crate::attach::images_keys(attachments@, devs);
            lemma_images(attachments@, devs, dev, path);
            lemma_contains_add(before, mine, (dev, path));
        }
        if exists|i: int| 0 <= i < init.len() && shows_image(#[trigger] init[i], path) {
            let i = choose|i: int| 0 <= i < init.len() && shows_image(#[trigger] init[i], path);
            assert(shows_image(rows[i], path));
        }
        if exists|i: int| 0 <= i < rows.len() && shows_image(#[trigger] rows[i], path) {
            let i = choose|i: int| 0 <= i < rows.len() && shows_image(#[trigger] rows[i], path);
            if i < init.len() {
                assert(shows_image(init[i], path));
            }
        }
        assert(shows_image(rows[rows.len() - 1], path) == shows_image(rows.last(), path));
    }
}

proof fn lemma_contains_add<T>(a: Seq<T>, b: Seq<T>, x: T)
    ensures
        (a + b).contains(x) == (a.contains(x) || b.contains(x)),
{
    if a.contains(x) {
        let i = choose|i: int| 0 <= i < a.len() && a[i] == x;
        assert((a + b)[i] == x);
    }
    if b.contains(x) {
        let i = choose|i: int| 0 <= i < b.len() && b[i] == x;
        assert((a + b)[a.len() + i] == x);
    }
    if (a + b).contains(x) {
        let i = choose|i: int| 0 <= i < (a + b).len() && (a + b)[i] == x;
        if i < a.len() {
            assert(a[i] == x);
        } else {
            assert(b[i - a.len()] == x);
        }
    }
}

proof fn lemma_images(
    atts: Seq<UserImageAttachment>,
    devs: Seq<Seq<char>>,
    dev: Seq<char>,
    path: Seq<char>,
)
    ensures
        crate::attach::images_keys(atts, devs).contains((dev, path)) == (devs.contains(dev)
            && has_image(atts, path)),
    decreases atts.len(),
{
    if atts.len() > 0 {
        let init = atts.drop_last();
        lemma_images(init, devs, dev, path);
        lemma_image(atts.last().path@, devs, dev, path);
        lemma_contains_add(
            crate::attach::images_keys(init, devs),
            crate::attach::image_keys(atts.last().path@, devs),
            (dev, path),
        );
        if has_image(init, path) {
            let i = choose|i: int| 0 <= i < init.len() && (#[trigger] init[i]).path@ == path;
            assert(atts[i].path@ == path);
        }
        if atts.last().path@ == path {
            assert(atts[atts.len() - 1].path@ == path);
        }
        if has_image(atts, path) {
            let i = choose|i: int| 0 <= i < atts.len() && (#[trigger] atts[i]).path@ == path;
            if i < init.len() {
                assert(init[i].path@ == path);
            }
        }
    }
}

proof fn lemma_image(own: Seq<char>, devs: Seq<Seq<char>>, dev: Seq<char>, path: Seq<char>)
    ensures
        crate::attach::image_keys(own, devs).contains((dev, path)) == (devs.contains(dev) && own
            == path),
    decreases devs.len(),
{
    let keys = crate::attach::image_keys(own, devs);
    if devs.len() > 0 {
        let init = devs.drop_last();
        lemma_image(own, init, dev, path);
        let less = crate::attach::image_keys(own, init);
        assert(keys == less.push((devs.last(), own)));
        if less.contains((dev, path)) {
            let i = choose|i: int| 0 <= i < less.len() && less[i] == (dev, path);
            assert(keys[i] == (dev, path));
        }
        if devs.last() == dev && own == path {
            assert(keys[less.len() as int] == (dev, path));
            assert(devs[devs.len() - 1] == dev);
        }
        if init.contains(dev) {
            let i = choose|i: int| 0 <= i < init.len() && init[i] == dev;
            assert(devs[i] == dev);
        }
        if devs.contains(dev) {
            let i = choose|i: int| 0 <= i < devs.len() && devs[i] == dev;
            if i < init.len() {
                assert(init[i] == dev);
            }
        }
        if keys.contains((dev, path)) {
            let i = choose|i: int| 0 <= i < keys.len() && keys[i] == (dev, path);
            if i < less.len() {
                assert(less[i] == (dev, path));
            }
        }
    }
}

// ---------------------------------------------------------------------------
// Images on their way
// ---------------------------------------------------------------------------

/// The path of an image on its way names its upload: what stands between
/// `pending://` and the next slash.
pub proof fn law_a_pending_path_names_its_upload(id: Seq<char>, name: Seq<char>)
    requires
        !id.contains('/'),
    ensures
        crate::attach::upload_of("pending://"@ + id + seq!['/'] + name) == Some(id),
        crate::attach::is_pending("pending://"@ + id + seq!['/'] + name),
        crate::attach::is_pending("pending/"@ + name),
        crate::attach::upload_of("pending://"@ + id) is None,
{
    let head = "pending://"@;
    let path = head + id + seq!['/'] + name;
    assert(path.take(head.len() as int) =~= head);
    assert(path.skip(head.len() as int) =~= id + seq!['/'] + name);
    lemma_slash(id, name);
    assert((head + id).take(head.len() as int) =~= head);
    assert((head + id).skip(head.len() as int) =~= id);
    lemma_no_slash(id);
    let short = "pending/"@;
    assert((short + name).take(short.len() as int) =~= short);
}

proof fn lemma_no_slash(s: Seq<char>)
    requires
        !s.contains('/'),
    ensures
        crate::attach::before_slash(s) is None,
    decreases s.len(),
{
    if s.len() > 0 {
        let init = s.drop_last();
        assert(!init.contains('/')) by {
            if init.contains('/') {
                let i = choose|i: int| 0 <= i < init.len() && init[i] == '/';
                assert(s[i] == '/');
            }
        }
        assert(s[s.len() - 1] == s.last());
        lemma_no_slash(init);
    }
}

proof fn lemma_slash(id: Seq<char>, name: Seq<char>)
    requires
        !id.contains('/'),
    ensures
        crate::attach::before_slash(id + seq!['/'] + name) == Some(id),
    decreases name.len(),
{
    let s = id + seq!['/'] + name;
    if name.len() == 0 {
        lemma_no_slash(id);
        assert(s.drop_last() =~= id);
    } else {
        lemma_slash(id, name.drop_last());
        assert(s.drop_last() =~= id + seq!['/'] + name.drop_last());
    }
}

/// A path that begins otherwise is of an image that was sent: it names no upload
/// and tells of no progress.
pub proof fn law_a_sent_image_tells_no_progress(
    path: &str,
    transfer: Option<u8>,
    send: Option<u8>,
    r: Option<u8>,
)
    requires
        call_ensures(crate::attach::upload_percent, (path, transfer, send), r),
    ensures
        !crate::attach::is_pending(path@) ==> r is None && crate::attach::upload_of(path@) is None,
        crate::attach::is_pending(path@) && transfer is None ==> r == send,
        crate::attach::upload_of(path@) is Some && transfer is Some ==> r == transfer,
        path@.len() < 8 ==> r is None,
        path@.len() > 0 && path@[0] != 'p' ==> r is None,
{
    reveal_strlit("pending://");
    reveal_strlit("pending/");
    if path@.len() > 0 {
        let long = "pending://"@;
        let short = "pending/"@;
        if crate::attach::starts(path@, long) {
            assert(path@.take(long.len() as int)[0] == long[0]);
        }
        if crate::attach::starts(path@, short) {
            assert(path@.take(short.len() as int)[0] == short[0]);
        }
    }
}

} // verus!
