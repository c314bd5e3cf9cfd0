//! Lightweight metadata of one session log.
use vstd::prelude::*;
use crate::json::{docs_of, parse_lines, Json};
use crate::parser::{
    parse_record, record_of, BlockModel, ContentBlock, ContentModel, MessageContent,
    ParsedRecord, RecordKind, RecordModel,
};
use crate::scan::{file_name_of, session_id_of, stem_of};
use crate::text::{blank, collapse_whitespace, collapsed, is_blank};
use crate::time::Timestamp;

verus! {

/// Metadata of one session: where its log lives, where it ran, when it was
/// last active, its title and how many messages it holds.
#[derive(Debug)]
pub struct SessionMeta {
    pub session_id: String,
    pub path: String,
    pub cwd: Option<String>,
    pub cwd_exists: bool,
    pub last_activity: Timestamp,
    pub title: String,
    pub message_count: usize,
}

/// The title of a session whose log holds no usable user text.
pub const NO_TITLE: &'static str = "(no title)";

/// The records that the lines of a log hold (`None` for a line that is not
/// a record).
pub open spec fn records_of(lines: Seq<Option<Json>>) -> Seq<Option<RecordModel>> {
    lines.map_values(
        |l: Option<Json>|
            match l {
                Some(d) => record_of(d),
                None => None,
            },
    )
}

/// The first text block of a content array that is not blank.
pub open spec fn first_text(bs: Seq<BlockModel>) -> Option<Seq<char>>
    decreases bs.len(),
{
    if bs.len() == 0 {
        None
    } else {
        match bs[0] {
            BlockModel::Text(s) => if !is_blank(s) {
                Some(s)
            } else {
                first_text(bs.drop_first())
            },
            _ => first_text(bs.drop_first()),
        }
    }
}

/// The title candidate of a user message: its text if it is a string that
/// is not blank, else its first text block that is not blank.
pub open spec fn title_of(c: ContentModel) -> Option<Seq<char>> {
    match c {
        ContentModel::Text(s) => if !is_blank(s) {
            Some(s)
        } else {
            None
        },
        ContentModel::Blocks(bs) => first_text(bs),
        ContentModel::Absent => None,
    }
}

/// The number of user and assistant records.
pub open spec fn message_total(rs: Seq<Option<RecordModel>>) -> nat
    decreases rs.len(),
{
    if rs.len() == 0 {
        0
    } else {
        message_total(rs.drop_last()) + match rs.last() {
            Some(RecordModel::UserOrAssistant { .. }) => 1nat,
            _ => 0nat,
        }
    }
}

/// The first `cwd` that a user or assistant record carries.
pub open spec fn first_cwd(rs: Seq<Option<RecordModel>>) -> Option<Seq<char>>
    decreases rs.len(),
{
    if rs.len() == 0 {
        None
    } else {
        match first_cwd(rs.drop_last()) {
            Some(c) => Some(c),
            None => match rs.last() {
                Some(RecordModel::UserOrAssistant { cwd, .. }) => cwd,
                _ => None,
            },
        }
    }
}

/// The later of an earlier maximum and a new instant (the new one on ties).
pub open spec fn later_of(prev: Option<(i64, u32)>, ts: (i64, u32)) -> (i64, u32) {
    match prev {
        Some(p) => if p.0 > ts.0 || (p.0 == ts.0 && p.1 > ts.1) {
            p
        } else {
            ts
        },
        None => ts,
    }
}

/// The latest timestamp of the user and assistant records.
pub open spec fn latest(rs: Seq<Option<RecordModel>>) -> Option<(i64, u32)>
    decreases rs.len(),
{
    if rs.len() == 0 {
        None
    } else {
        let prev = latest(rs.drop_last());
        match rs.last() {
            Some(RecordModel::UserOrAssistant { timestamp: Some(t), .. }) => Some(
                later_of(prev, t),
            ),
            _ => prev,
        }
    }
}

/// The first title candidate of a user record, whitespace collapsed.
pub open spec fn first_title(rs: Seq<Option<RecordModel>>) -> Option<Seq<char>>
    decreases rs.len(),
{
    if rs.len() == 0 {
        None
    } else {
        match first_title(rs.drop_last()) {
            Some(t) => Some(t),
            None => match rs.last() {
                Some(RecordModel::UserOrAssistant { kind: RecordKind::User, message, .. }) => {
                    match title_of(message.content) {
                        Some(t) => Some(collapsed(t)),
                        None => None,
                    }
                },
                _ => None,
            },
        }
    }
}

/// The title of a user message's content, if it has one.
pub fn title_from_user(content: &MessageContent) -> (r: Option<String>)
    ensures
        match r {
            Some(t) => title_of(content@) == Some(t@),
            None => title_of(content@) is None,
        },
{
    match content {
        MessageContent::Text(s) => {
            if !blank(s.as_str()) {
                Some(s.clone())
            } else {
                None
            }
        },
        MessageContent::Blocks(blocks) => {
            let ghost bm = crate::parser::blocks_model(blocks@);
            let mut i: usize = 0;
            assert(bm.skip(0) == bm);
            while i < blocks.len()
                invariant
                    i <= blocks.len(),
                    bm == crate::parser::blocks_model(blocks@),
                    title_of(content@) == first_text(bm),
                    first_text(bm) == first_text(bm.skip(i as int)),
                decreases blocks.len() - i,
            {
                assert(bm.skip(i as int)[0] == blocks@[i as int]@);
                assert(bm.skip(i as int).drop_first() == bm.skip(i + 1));
                match &blocks[i] {
                    ContentBlock::Text(s) => {
                        if !blank(s.as_str()) {
                            return Some(s.clone());
                        }
                    },
                    _ => {},
                }
                i = i + 1;
            }
            assert(bm.skip(i as int).len() == 0);
            None
        },
        MessageContent::Absent => None,
    }
}

/// What a scan of the lines of a log has found so far.
pub struct MetaScan {
    pub cwd: Option<String>,
    pub last: Option<Timestamp>,
    pub title: Option<String>,
    pub message_count: usize,
}

/// The scan of the records `rs` has found exactly their first cwd, latest
/// timestamp, first title and message count.
pub open spec fn scanned(s: MetaScan, rs: Seq<Option<RecordModel>>) -> bool {
    &&& crate::parser::opt_text(s.cwd) == first_cwd(rs)
    &&& crate::parser::instant_model(s.last) == latest(rs)
    &&& crate::parser::opt_text(s.title) == first_title(rs)
    &&& s.message_count == message_total(rs)
}

/// Scan the lines of a log: its first cwd, latest timestamp, first user
/// title (whitespace collapsed) and number of user and assistant records.
pub fn scan_lines(lines: &Vec<String>) -> (r: MetaScan)
    ensures
        scanned(r, records_of(docs_of(lines@))),
{
    let docs = parse_lines(lines);
    scan_docs(&docs)
}

/// Scan a log whose lines were read as JSON (`None` for a line that is not
/// JSON).
pub fn scan_docs(lines: &Vec<Option<Json>>) -> (r: MetaScan)
    ensures
        scanned(r, records_of(lines@)),
{
    let ghost rs = records_of(lines@);
    let mut cwd: Option<String> = None;
    let mut last: Option<Timestamp> = None;
    let mut title: Option<String> = None;
    let mut count: usize = 0;
    let mut i: usize = 0;
    while i < lines.len()
        invariant
            i <= lines.len(),
            rs == records_of(lines@),
            scanned(
                MetaScan { cwd, last, title, message_count: count },
                rs.take(i as int),
            ),
            count <= i,
        decreases lines.len() - i,
    {
        assert(rs.take(i + 1).drop_last() == rs.take(i as int));
        assert(rs.take(i + 1).last() == rs[i as int]);
        let rec = match &lines[i] {
            Some(doc) => parse_record(doc),
            None => None,
        };
        match rec {
            Some(ParsedRecord::UserOrAssistant { kind, message, cwd: c, timestamp }) => {
                count = count + 1;
                if cwd.is_none() {
                    cwd = c;
                }
                match timestamp {
                    Some(ts) => {
                        let keep_prev = match &last {
                            Some(prev) => prev.is_after(&ts),
                            None => false,
                        };
                        if !keep_prev {
                            last = Some(ts);
                        }
                    },
                    None => {},
                }
                if title.is_none() && kind == RecordKind::User {
                    match title_from_user(&message.content) {
                        Some(t) => {
                            title = Some(collapse_whitespace(t.as_str()));
                        },
                        None => {},
                    }
                }
            },
            _ => {},
        }
        i = i + 1;
    }
    assert(rs.take(lines.len() as int) == rs);
    MetaScan { cwd, last, title, message_count: count }
}

/// Metadata of the session whose log is at `path`, with the given lines and
/// the file's modification time (or the current time) as `fallback_time`.
/// `None` when the path has no file name. The title is the first user text,
/// whitespace collapsed, else `NO_TITLE`; the last activity is the latest
/// timestamp, else `fallback_time`. `cwd_exists` is left `false` until
/// `set_cwd_exists` records what the file system says.
pub fn extract_meta(path: &str, lines: &Vec<String>, fallback_time: Timestamp) -> (r:
    Option<SessionMeta>)
    ensures
        match r {
            None => file_name_of(path@) is None,
            Some(m) => {
                let rs = records_of(docs_of(lines@));
                &&& file_name_of(path@) matches Some(n) && m.session_id@ == stem_of(n)
                &&& m.path@ == path@
                &&& crate::parser::opt_text(m.cwd) == first_cwd(rs)
                &&& !m.cwd_exists
                &&& (m.last_activity.unix_secs(), m.last_activity.subsec_nanos()) == match latest(rs) {
                    Some(t) => t,
                    None => (fallback_time.unix_secs(), fallback_time.subsec_nanos()),
                }
                &&& m.title@ == match first_title(rs) {
                    Some(t) => t,
                    None => NO_TITLE@,
                }
                &&& m.message_count == message_total(rs)
            },
        },
{
    let docs = parse_lines(lines);
    meta_from_docs(path, &docs, fallback_time)
}

/// `extract_meta` for a log whose lines were read as JSON (`None` for a line
/// that is not JSON).
pub fn meta_from_docs(path: &str, lines: &Vec<Option<Json>>, fallback_time: Timestamp) -> (r:
    Option<SessionMeta>)
    ensures
        match r {
            None => file_name_of(path@) is None,
            Some(m) => {
                let rs = records_of(lines@);
                &&& file_name_of(path@) matches Some(n) && m.session_id@ == stem_of(n)
                &&& m.path@ == path@
                &&& crate::parser::opt_text(m.cwd) == first_cwd(rs)
                &&& !m.cwd_exists
                &&& (m.last_activity.unix_secs(), m.last_activity.subsec_nanos()) == match latest(rs) {
                    Some(t) => t,
                    None => (fallback_time.unix_secs(), fallback_time.subsec_nanos()),
                }
                &&& m.title@ == match first_title(rs) {
                    Some(t) => t,
                    None => NO_TITLE@,
                }
                &&& m.message_count == message_total(rs)
            },
        },
{
    let session_id = match session_id_of(path) {
        Some(id) => id,
        None => {
            return None;
        },
    };
    let scan = scan_docs(lines);
    let last_activity = match scan.last {
        Some(t) => t,
        None => fallback_time,
    };
    let title = match scan.title {
        Some(t) => t,
        None => String::from_str(NO_TITLE),
    };
    Some(
        SessionMeta {
            session_id,
            path: String::from_str(path),
            cwd: scan.cwd,
            cwd_exists: false,
            last_activity,
            title,
            message_count: scan.message_count,
        },
    )
}

impl SessionMeta {
    /// Record whether the session's working directory exists: it does only
    /// when the session has a cwd and the file system says it is a
    /// directory.
    pub fn set_cwd_exists(&mut self, is_dir: bool)
        ensures
            final(self).cwd_exists == (is_dir && old(self).cwd is Some),
            final(self).session_id == old(self).session_id,
            final(self).path == old(self).path,
            final(self).cwd == old(self).cwd,
            final(self).last_activity == old(self).last_activity,
            final(self).title == old(self).title,
            final(self).message_count == old(self).message_count,
    {
        self.cwd_exists = is_dir && self.cwd.is_some();
    }
}

/// No session in `s` was last active strictly before one that follows it:
/// the most recent come first.
pub open spec fn by_recent(s: Seq<SessionMeta>) -> bool {
    forall|i: int, j: int|
        0 <= i < j < s.len() ==> !(#[trigger] s[i].last_activity).before(
            #[trigger] s[j].last_activity,
        )
}

/// The sessions ordered by most recent activity first. The result holds the
/// same sessions, each as often as before.
pub fn sort_by_recent(sessions: Vec<SessionMeta>) -> (r: Vec<SessionMeta>)
    ensures
        r@.to_multiset() == sessions@.to_multiset(),
        by_recent(r@),
{
    broadcast use vstd::seq_lib::group_to_multiset_ensures, vstd::multiset::group_multiset_axioms;

    let ghost orig = sessions@;
    let mut rest = sessions;
    let mut out: Vec<SessionMeta> = Vec::new();
    while rest.len() > 0
        invariant
            by_recent(out@),
            out@.to_multiset().add(rest@.to_multiset()) == orig.to_multiset(),
        decreases rest.len(),
    {
        let ghost before_pop = rest@;
        let x = rest.pop().unwrap();
        assert(before_pop == rest@.push(x));
        let mut k: usize = 0;
        while k < out.len() && out[k].last_activity.is_after(&x.last_activity)
            invariant
                k <= out.len(),
                forall|i: int| 0 <= i < k ==> x.last_activity.before(#[trigger] out@[i].last_activity),
            decreases out.len() - k,
        {
            k = k + 1;
        }
        let ghost prev = out@;
        proof {
            assert forall|j: int| k <= j < prev.len() implies !x.last_activity.before(
                #[trigger] prev[j].last_activity,
            ) by {
                assert(!x.last_activity.before(prev[k as int].last_activity));
                if j > k {
                    assert(!prev[k as int].last_activity.before(prev[j].last_activity));
                }
            }
        }
        out.insert(k, x);
        proof {
            assert(out@ == prev.insert(k as int, x));
            assert forall|i: int, j: int| 0 <= i < j < out@.len() implies !(
            #[trigger] out@[i].last_activity).before(#[trigger] out@[j].last_activity) by {
                if j < k {
                    assert(out@[i] == prev[i] && out@[j] == prev[j]);
                } else if j == k {
                    assert(out@[i] == prev[i]);
                } else if i == k {
                    assert(out@[j] == prev[j - 1]);
                } else if i < k {
                    assert(out@[i] == prev[i] && out@[j] == prev[j - 1]);
                    assert(x.last_activity.before(prev[i].last_activity));
                    assert(!x.last_activity.before(prev[j - 1].last_activity));
                } else {
                    assert(out@[i] == prev[i - 1] && out@[j] == prev[j - 1]);
                }
            }
            assert(out@.to_multiset() == prev.insert(k as int, x).to_multiset());
            vstd::seq_lib::to_multiset_insert(prev, k as int, x);
            assert(before_pop.to_multiset() == rest@.push(x).to_multiset());
            vstd::seq_lib::to_multiset_build(rest@, x);
            assert(out@.to_multiset().add(rest@.to_multiset()) =~= prev.to_multiset().add(
                before_pop.to_multiset(),
            ));
        }
    }
    assert(out@.to_multiset() =~= out@.to_multiset().add(rest@.to_multiset()));
    out
}

/// `a` is no earlier than `b`.
pub open spec fn not_before(a: (i64, u32), b: (i64, u32)) -> bool {
    a.0 > b.0 || (a.0 == b.0 && a.1 >= b.1)
}

/// The timestamp of a user or assistant record.
pub open spec fn stamp_of(r: Option<RecordModel>) -> Option<(i64, u32)> {
    match r {
        Some(RecordModel::UserOrAssistant { timestamp, .. }) => timestamp,
        _ => None,
    }
}

/// The last activity that the records give is the latest of their
/// timestamps: no user or assistant record is later, and one of them carries
/// it. Without timestamps there is none.
pub proof fn law_latest_is_max(rs: Seq<Option<RecordModel>>)
    ensures
        forall|i: int|
            0 <= i < rs.len() && (#[trigger] stamp_of(rs[i])) is Some ==> latest(rs) is Some
                && not_before(latest(rs)->Some_0, stamp_of(rs[i])->Some_0),
        latest(rs) is Some ==> exists|i: int|
            0 <= i < rs.len() && #[trigger] stamp_of(rs[i]) == latest(rs),
        latest(rs) is None ==> forall|i: int|
            0 <= i < rs.len() ==> (#[trigger] stamp_of(rs[i])) is None,
    decreases rs.len(),
{
    if rs.len() > 0 {
        let prev = rs.drop_last();
        law_latest_is_max(prev);
        assert(stamp_of(rs[rs.len() - 1]) == stamp_of(rs.last()));
        assert forall|i: int| 0 <= i < rs.len() - 1 implies stamp_of(rs[i]) == stamp_of(
            prev[i],
        ) by {
            assert(rs[i] == prev[i]);
        }
        if latest(rs) is Some && stamp_of(rs.last()) != latest(rs) {
            let i = choose|i: int| 0 <= i < prev.len() && #[trigger] stamp_of(prev[i]) == latest(
                prev,
            );
            assert(stamp_of(rs[i]) == latest(rs));
        }
    }
}

/// A title found in the records is never empty: it is collapsed text that
/// was not blank.
pub proof fn law_title_not_empty(rs: Seq<Option<RecordModel>>)
    ensures
        first_title(rs) matches Some(t) ==> t.len() > 0,
    decreases rs.len(),
{
    if rs.len() > 0 {
        law_title_not_empty(rs.drop_last());
        if first_title(rs.drop_last()) is None {
            if let Some(RecordModel::UserOrAssistant { kind: RecordKind::User, message, .. }) = rs.last() {
                if let Some(t) = title_of(message.content) {
                    lemma_title_not_blank(message.content);
                    crate::text::law_collapsed_empty_iff_blank(t);
                }
            }
        }
    }
}

/// A title candidate is never blank.
proof fn lemma_title_not_blank(c: ContentModel)
    ensures
        title_of(c) matches Some(t) ==> !is_blank(t),
{
    if let ContentModel::Blocks(bs) = c {
        lemma_first_text_not_blank(bs);
    }
}

/// The first text block that is not blank is not blank.
proof fn lemma_first_text_not_blank(bs: Seq<BlockModel>)
    ensures
        first_text(bs) matches Some(t) ==> !is_blank(t),
    decreases bs.len(),
{
    if bs.len() > 0 {
        lemma_first_text_not_blank(bs.drop_first());
    }
}

/// The title candidate of a content array is its first text block that is
/// not blank: blocks before it (other kinds, or blank text) are passed over
/// and blocks after it do not matter.
pub proof fn law_title_is_first_text_block(bs: Seq<BlockModel>, k: int)
    requires
        0 <= k < bs.len(),
        bs[k] matches BlockModel::Text(t) && !is_blank(t),
        forall|j: int|
            0 <= j < k ==> !(#[trigger] bs[j] matches BlockModel::Text(u) && !is_blank(u)),
    ensures
        bs[k] matches BlockModel::Text(t) && title_of(ContentModel::Blocks(bs)) == Some(t),
    decreases k,
{
    if k > 0 {
        let rest = bs.drop_first();
        assert forall|j: int| 0 <= j < k - 1 implies !(#[trigger] rest[j] matches BlockModel::Text(
            u,
        ) && !is_blank(u)) by {
            assert(rest[j] == bs[j + 1]);
        }
        assert(rest[k - 1] == bs[k]);
        law_title_is_first_text_block(rest, k - 1);
        assert(!(bs[0] matches BlockModel::Text(u) && !is_blank(u)));
    }
}

/// A content array that starts with a text block that is not blank takes
/// its title from that block, whatever follows.
pub proof fn law_leading_text_block_is_title(a: Seq<char>, rest: Seq<BlockModel>)
    requires
        !is_blank(a),
    ensures
        title_of(ContentModel::Blocks(seq![BlockModel::Text(a)] + rest)) == Some(a),
{
    let bs = seq![BlockModel::Text(a)] + rest;
    assert(bs[0] == BlockModel::Text(a));
}

/// A record that offers a title: a user record whose content has a title
/// candidate.
pub open spec fn offers_title(r: Option<RecordModel>) -> bool {
    r matches Some(RecordModel::UserOrAssistant { kind: RecordKind::User, message, .. })
        && title_of(message.content) is Some
}

/// The title comes from the first user record that offers one, collapsed;
/// assistant records and earlier user records without a candidate are
/// passed over. Without such a record there is no title.
pub proof fn law_title_from_first_user_record(rs: Seq<Option<RecordModel>>)
    ensures
        (forall|j: int| 0 <= j < rs.len() ==> !offers_title(#[trigger] rs[j])) ==> first_title(
            rs,
        ) is None,
        forall|k: int|
            0 <= k < rs.len() && offers_title(#[trigger] rs[k]) && (forall|j: int|
                0 <= j < k ==> !offers_title(#[trigger] rs[j])) ==> (rs[k] matches Some(
                RecordModel::UserOrAssistant { message, .. },
            ) && title_of(message.content) matches Some(u) && first_title(rs) == Some(
                collapsed(u),
            )),
    decreases rs.len(),
{
    if rs.len() > 0 {
        let prev = rs.drop_last();
        law_title_from_first_user_record(prev);
        assert forall|j: int| 0 <= j < prev.len() implies prev[j] == rs[j] by {}
        assert(rs.last() == rs[rs.len() - 1]);
        if first_title(prev) is Some {
            if forall|j: int| 0 <= j < rs.len() ==> !offers_title(#[trigger] rs[j]) {
                assert forall|j: int| 0 <= j < prev.len() implies !offers_title(
                    #[trigger] prev[j],
                ) by {
                    assert(prev[j] == rs[j]);
                }
            }
        }
        assert forall|k: int|
            0 <= k < rs.len() && offers_title(#[trigger] rs[k]) && (forall|j: int|
                0 <= j < k ==> !offers_title(#[trigger] rs[j])) implies (rs[k] matches Some(
            RecordModel::UserOrAssistant { message, .. },
        ) && title_of(message.content) matches Some(u) && first_title(rs) == Some(
            collapsed(u),
        )) by {
            if k < rs.len() - 1 {
                assert(prev[k] == rs[k]);
                assert forall|j: int| 0 <= j < k implies !offers_title(#[trigger] prev[j]) by {
                    assert(prev[j] == rs[j]);
                }
            } else {
                assert forall|j: int| 0 <= j < prev.len() implies !offers_title(
                    #[trigger] prev[j],
                ) by {
                    assert(prev[j] == rs[j]);
                }
            }
        }
    }
}

} // verus!
