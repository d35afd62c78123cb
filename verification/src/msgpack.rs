//! Game server responses: decoding the message-pack body and picking out the
//! recovery times and job schedules that the reminder notifications need.

use vstd::prelude::*;
use rmpv::Value;
use crate::text::{
    chars_of, concat_str, has_prefix, replace_all, replace_str, str_starts_with, string_eq_str,
    string_from_chars,
};

verus! {

/// A decoded message-pack value, holding what the response logic reads.
pub enum MsgValue {
    Nil,
    Boolean(bool),
    /// An integer, as an `i64` when it fits in one.
    Integer(Option<i64>),
    /// A 32- or 64-bit float (its value is never read).
    Float,
    /// A string, when its bytes are valid UTF-8.
    String(Option<String>),
    Binary(Vec<u8>),
    Array(Vec<MsgValue>),
    Dict(Vec<(MsgValue, MsgValue)>),
    Ext(i8, Vec<u8>),
}

#[verifier::external_type_specification]
#[verifier::external_body]
pub struct ExRmpvValue(Value);

/// What `rmpv::decode::read_value` reads from the front of `bytes`, in the
/// library's representation; `None` when the bytes do not start with a
/// well-formed value.
pub uninterp spec fn msgpack_decoded(bytes: Seq<u8>) -> Option<MsgValue>;

/// Converts rmpv's value into the library's one, variant for variant.
#[verifier::external_body]
fn from_rmpv(v: Value) -> MsgValue {
    match v {
        Value::Nil => MsgValue::Nil,
        Value::Boolean(b) => MsgValue::Boolean(b),
        Value::Integer(n) => MsgValue::Integer(n.as_i64()),
        Value::F32(_) | Value::F64(_) => MsgValue::Float,
        Value::String(s) => MsgValue::String(s.into_str()),
        Value::Binary(b) => MsgValue::Binary(b),
        Value::Array(a) => MsgValue::Array(a.into_iter().map(from_rmpv).collect()),
        Value::Map(m) => MsgValue::Dict(m.into_iter().map(|(k, x)| (from_rmpv(k), from_rmpv(x))).collect()),
        Value::Ext(t, d) => MsgValue::Ext(t, d),
    }
}

/// `rmpv::decode::read_value` on `bytes`. The decoded value depends on the
/// bytes alone and is named by `msgpack_decoded`; the message-pack format
/// itself is not restated here.
#[verifier::external_body]
fn decode_msgpack(bytes: &[u8]) -> (r: Option<MsgValue>)
    ensures
        r == msgpack_decoded(bytes@),
{
    let mut cursor = std::io::Cursor::new(bytes);
    rmpv::decode::read_value(&mut cursor).ok().map(from_rmpv)
}

/// The value is the string `name`.
pub open spec fn key_is(k: MsgValue, name: Seq<char>) -> bool {
    match k {
        MsgValue::String(Some(s)) => s@ == name,
        _ => false,
    }
}

/// The value as an `i64`, for integers that fit.
pub open spec fn as_i64(v: MsgValue) -> Option<i64> {
    match v {
        MsgValue::Integer(n) => n,
        _ => None,
    }
}

/// The value's text, or the empty text when it is not a valid string.
pub open spec fn str_or_empty(v: MsgValue) -> Seq<char> {
    match v {
        MsgValue::String(Some(s)) => s@,
        _ => Seq::<char>::empty(),
    }
}

fn key_equals(k: &MsgValue, name: &str) -> (r: bool)
    ensures
        r == key_is(*k, name@),
{
    match k {
        MsgValue::String(Some(s)) => string_eq_str(s, name),
        _ => false,
    }
}

fn int_of(v: &MsgValue) -> (r: Option<i64>)
    ensures
        r == as_i64(*v),
{
    match v {
        MsgValue::Integer(n) => *n,
        _ => None,
    }
}

// ---------------------------------------------------------------------------
// One `data` map
// ---------------------------------------------------------------------------

/// The leader character id after the `leader_chara_id` entries of a
/// `user_info` map, starting from `leader` (integer ids are truncated to 32
/// bits).
pub open spec fn leader_after(leader: i32, pairs: Seq<(MsgValue, MsgValue)>) -> i32
    decreases pairs.len(),
{
    if pairs.len() == 0 {
        leader
    } else {
        let prev = leader_after(leader, pairs.drop_last());
        let (k, v) = pairs.last();
        if key_is(k, "leader_chara_id"@) && as_i64(v) is Some {
            (as_i64(v)->0) as i32
        } else {
            prev
        }
    }
}

/// The `max_recovery_time` of a `tp_info` or `rp_info` map: the last such
/// entry wins, and a non-integer one clears it.
pub open spec fn recovery_after(cur: Option<i64>, pairs: Seq<(MsgValue, MsgValue)>) -> Option<i64>
    decreases pairs.len(),
{
    if pairs.len() == 0 {
        cur
    } else {
        let prev = recovery_after(cur, pairs.drop_last());
        let (k, v) = pairs.last();
        if key_is(k, "max_recovery_time"@) {
            as_i64(v)
        } else {
            prev
        }
    }
}

/// The job array of a `jobs_load_info` map: its last
/// `jobs_going_info_array` array.
pub open spec fn load_info_jobs_after(
    cur: Option<Seq<MsgValue>>,
    pairs: Seq<(MsgValue, MsgValue)>,
) -> Option<Seq<MsgValue>>
    decreases pairs.len(),
{
    if pairs.len() == 0 {
        cur
    } else {
        let prev = load_info_jobs_after(cur, pairs.drop_last());
        let (k, v) = pairs.last();
        if key_is(k, "jobs_going_info_array"@) {
            match v {
                MsgValue::Array(a) => Some(a@),
                _ => prev,
            }
        } else {
            prev
        }
    }
}

/// What the scan of a `data` map has gathered so far.
pub struct DataScan {
    pub leader: i32,
    pub tp: Option<i64>,
    pub rp: Option<i64>,
    pub jobs: Option<Seq<MsgValue>>,
}

/// One entry of a `data` map applied to the scan.
pub open spec fn scan_step(st: DataScan, k: MsgValue, v: MsgValue) -> DataScan {
    if key_is(k, "user_info"@) {
        match v {
            MsgValue::Dict(m) => DataScan { leader: leader_after(st.leader, m@), ..st },
            _ => st,
        }
    } else if key_is(k, "tp_info"@) {
        match v {
            MsgValue::Dict(m) => DataScan { tp: recovery_after(st.tp, m@), ..st },
            _ => st,
        }
    } else if key_is(k, "rp_info"@) {
        match v {
            MsgValue::Dict(m) => DataScan { rp: recovery_after(st.rp, m@), ..st },
            _ => st,
        }
    } else if key_is(k, "jobs_going_info_array"@) {
        match v {
            MsgValue::Array(a) => DataScan { jobs: Some(a@), ..st },
            _ => st,
        }
    } else if key_is(k, "jobs_load_info"@) {
        match v {
            MsgValue::Dict(m) => DataScan { jobs: load_info_jobs_after(st.jobs, m@), ..st },
            _ => st,
        }
    } else {
        st
    }
}

/// The scan of the entries `pairs` of a `data` map, in order.
pub open spec fn scan_data_map(st: DataScan, pairs: Seq<(MsgValue, MsgValue)>) -> DataScan
    decreases pairs.len(),
{
    if pairs.len() == 0 {
        st
    } else {
        let prev = scan_data_map(st, pairs.drop_last());
        scan_step(prev, pairs.last().0, pairs.last().1)
    }
}

/// The fields of one job of the job array.
pub struct JobScan {
    pub reward_id: i32,
    pub end_time: Seq<char>,
    pub leader_card_id: i32,
}

/// The `card_id` of the first attending card: the last such entry wins, a
/// non-integer one counts as 0 (ids are truncated to 32 bits).
pub open spec fn card_id_after(cur: i32, pairs: Seq<(MsgValue, MsgValue)>) -> i32
    decreases pairs.len(),
{
    if pairs.len() == 0 {
        cur
    } else {
        let prev = card_id_after(cur, pairs.drop_last());
        let (k, v) = pairs.last();
        if key_is(k, "card_id"@) {
            match as_i64(v) {
                Some(n) => n as i32,
                None => 0,
            }
        } else {
            prev
        }
    }
}

pub open spec fn job_step(st: JobScan, k: MsgValue, v: MsgValue) -> JobScan {
    if key_is(k, "jobs_reward_id"@) {
        JobScan {
            reward_id: match as_i64(v) {
                Some(n) => n as i32,
                None => 0,
            },
            ..st
        }
    } else if key_is(k, "end_time"@) {
        JobScan { end_time: str_or_empty(v), ..st }
    } else if key_is(k, "attend_card_info_array"@) {
        match v {
            MsgValue::Array(cards) => if cards@.len() > 0 {
                match cards@[0] {
                    MsgValue::Dict(cm) => JobScan {
                        leader_card_id: card_id_after(st.leader_card_id, cm@),
                        ..st
                    },
                    _ => st,
                }
            } else {
                st
            },
            _ => st,
        }
    } else {
        st
    }
}

/// The scan of the entries of one job map, from no reward, no end time and no
/// card.
pub open spec fn scan_job(pairs: Seq<(MsgValue, MsgValue)>) -> JobScan
    decreases pairs.len(),
{
    if pairs.len() == 0 {
        JobScan { reward_id: 0, end_time: Seq::<char>::empty(), leader_card_id: 0 }
    } else {
        let prev = scan_job(pairs.drop_last());
        job_step(prev, pairs.last().0, pairs.last().1)
    }
}

proof fn lemma_attend_key_is_no_other(key: MsgValue)
    requires
        key_is(key, "attend_card_info_array"@),
    ensures
        !key_is(key, "jobs_reward_id"@),
        !key_is(key, "end_time"@),
{
    reveal_strlit("attend_card_info_array");
    reveal_strlit("jobs_reward_id");
    reveal_strlit("end_time");
    assert("attend_card_info_array"@.len() == 22);
    assert("jobs_reward_id"@.len() == 14);
    assert("end_time"@.len() == 8);
    assert("attend_card_info_array"@ != "jobs_reward_id"@);
    assert("attend_card_info_array"@ != "end_time"@);
}

/// A job's leading card is its first attending card: when the job map's last
/// entry is its attending-card array, the leading card id is the `card_id`
/// of the array's first card (0 when that is not an integer), whatever the
/// other cards and the entries before hold.
pub proof fn law_leader_card_is_first_card(
    before: Seq<(MsgValue, MsgValue)>,
    key: MsgValue,
    cards: Vec<MsgValue>,
    first_card: Vec<(MsgValue, MsgValue)>,
    card_key: MsgValue,
    card_value: MsgValue,
)
    requires
        key_is(key, "attend_card_info_array"@),
        cards@.len() > 0,
        cards@[0] == MsgValue::Dict(first_card),
        first_card@ == seq![(card_key, card_value)],
        key_is(card_key, "card_id"@),
    ensures
        scan_job(before.push((key, MsgValue::Array(cards)))).leader_card_id == (match as_i64(
            card_value,
        ) {
            Some(n) => n as i32,
            None => 0,
        }),
{
    lemma_attend_key_is_no_other(key);
    let pairs = before.push((key, MsgValue::Array(cards)));
    assert(pairs.drop_last() =~= before);
    assert(first_card@.drop_last() =~= Seq::<(MsgValue, MsgValue)>::empty());
    let prev = scan_job(before);
    assert(card_id_after(prev.leader_card_id, first_card@.drop_last()) == prev.leader_card_id);
}

/// Only the first attending card leads: two attending-card arrays with the
/// same first card give a job the same leading card, whatever follows it.
pub proof fn law_later_cards_do_not_lead(
    before: Seq<(MsgValue, MsgValue)>,
    key: MsgValue,
    cards1: Vec<MsgValue>,
    cards2: Vec<MsgValue>,
)
    requires
        key_is(key, "attend_card_info_array"@),
        cards1@.len() > 0,
        cards2@.len() > 0,
        cards1@[0] == cards2@[0],
    ensures
        scan_job(before.push((key, MsgValue::Array(cards1)))).leader_card_id == scan_job(
            before.push((key, MsgValue::Array(cards2))),
        ).leader_card_id,
{
    lemma_attend_key_is_no_other(key);
    assert(before.push((key, MsgValue::Array(cards1))).drop_last() =~= before);
    assert(before.push((key, MsgValue::Array(cards2))).drop_last() =~= before);
}

/// A job of the job array: its position and its fields.
pub struct JobInfo {
    pub index: usize,
    pub reward_id: i32,
    pub end_time: String,
    pub leader_card_id: i32,
}

pub struct JobView {
    pub index: int,
    pub reward_id: i32,
    pub end_time: Seq<char>,
    pub leader_card_id: i32,
}

impl View for JobInfo {
    type V = JobView;

    open spec fn view(&self) -> JobView {
        JobView {
            index: self.index as int,
            reward_id: self.reward_id,
            end_time: self.end_time@,
            leader_card_id: self.leader_card_id,
        }
    }
}

/// The jobs of the first `n` elements of the job array; elements that are
/// not maps are skipped.
pub open spec fn jobs_of(arr: Seq<MsgValue>, n: int) -> Seq<JobView>
    decreases n,
{
    if n <= 0 {
        Seq::<JobView>::empty()
    } else {
        let prev = jobs_of(arr, n - 1);
        match arr[n - 1] {
            MsgValue::Dict(m) => {
                let j = scan_job(m@);
                prev.push(
                    JobView {
                        index: n - 1,
                        reward_id: j.reward_id,
                        end_time: j.end_time,
                        leader_card_id: j.leader_card_id,
                    },
                )
            },
            _ => prev,
        }
    }
}

/// What one `data` map reports.
pub struct DataMapReport {
    /// The leader character id once this map is read.
    pub leader_chara_id: i32,
    pub tp_recovery_time: Option<i64>,
    pub rp_recovery_time: Option<i64>,
    /// The jobs of the last job array found, when one was.
    pub jobs: Option<Vec<JobInfo>>,
}

pub struct DataMapReportView {
    pub leader_chara_id: i32,
    pub tp_recovery_time: Option<i64>,
    pub rp_recovery_time: Option<i64>,
    pub jobs: Option<Seq<JobView>>,
}

impl View for DataMapReport {
    type V = DataMapReportView;

    open spec fn view(&self) -> DataMapReportView {
        DataMapReportView {
            leader_chara_id: self.leader_chara_id,
            tp_recovery_time: self.tp_recovery_time,
            rp_recovery_time: self.rp_recovery_time,
            jobs: match self.jobs {
                Some(v) => Some(v@.map_values(|j: JobInfo| j@)),
                None => None,
            },
        }
    }
}

/// The report of a scan.
pub open spec fn report_of(st: DataScan) -> DataMapReportView {
    DataMapReportView {
        leader_chara_id: st.leader,
        tp_recovery_time: st.tp,
        rp_recovery_time: st.rp,
        jobs: match st.jobs {
            Some(a) => Some(jobs_of(a, a.len() as int)),
            None => None,
        },
    }
}

/// The report of a `data` map read while the leader id was `leader`.
pub open spec fn data_map_report(leader: i32, pairs: Seq<(MsgValue, MsgValue)>) -> DataMapReportView {
    report_of(
        scan_data_map(DataScan { leader, tp: None, rp: None, jobs: None }, pairs),
    )
}

proof fn lemma_scan_keeps_leader(st: DataScan, pairs: Seq<(MsgValue, MsgValue)>)
    requires
        forall|i: int| 0 <= i < pairs.len() ==> !key_is(#[trigger] pairs[i].0, "user_info"@),
    ensures
        scan_data_map(st, pairs).leader == st.leader,
    decreases pairs.len(),
{
    if pairs.len() > 0 {
        let front = pairs.drop_last();
        assert forall|i: int| 0 <= i < front.len() implies !key_is(#[trigger] front[i].0, "user_info"@) by {
            assert(front[i] == pairs[i]);
        }
        lemma_scan_keeps_leader(st, front);
        assert(!key_is(pairs[pairs.len() - 1].0, "user_info"@));
    }
}

/// The leader character stays as last seen until a response names another:
/// a `data` map without a `user_info` entry reports, and leaves, the leader
/// it was read with.
pub proof fn law_leader_persists(leader: i32, pairs: Seq<(MsgValue, MsgValue)>)
    requires
        forall|i: int| 0 <= i < pairs.len() ==> !key_is(#[trigger] pairs[i].0, "user_info"@),
    ensures
        data_map_report(leader, pairs).leader_chara_id == leader,
{
    lemma_scan_keeps_leader(DataScan { leader, tp: None, rp: None, jobs: None }, pairs);
}

fn leader_in(leader: i32, m: &Vec<(MsgValue, MsgValue)>) -> (r: i32)
    ensures
        r == leader_after(leader, m@),
{
    let mut cur = leader;
    let mut i: usize = 0;
    while i < m.len()
        invariant
            i <= m@.len(),
            cur == leader_after(leader, m@.take(i as int)),
        decreases m.len() - i,
    {
        assert(m@.take(i + 1).drop_last() =~= m@.take(i as int));
        let p = &m[i];
        if key_equals(&p.0, "leader_chara_id") {
            match int_of(&p.1) {
                Some(id) => {
                    cur = #[verifier::truncate] (id as i32);
                },
                None => {},
            }
        }
        i += 1;
    }
    assert(m@.take(m@.len() as int) =~= m@);
    cur
}

fn recovery_in(cur0: Option<i64>, m: &Vec<(MsgValue, MsgValue)>) -> (r: Option<i64>)
    ensures
        r == recovery_after(cur0, m@),
{
    let mut cur = cur0;
    let mut i: usize = 0;
    while i < m.len()
        invariant
            i <= m@.len(),
            cur == recovery_after(cur0, m@.take(i as int)),
        decreases m.len() - i,
    {
        assert(m@.take(i + 1).drop_last() =~= m@.take(i as int));
        let p = &m[i];
        if key_equals(&p.0, "max_recovery_time") {
            cur = int_of(&p.1);
        }
        i += 1;
    }
    assert(m@.take(m@.len() as int) =~= m@);
    cur
}

pub open spec fn opt_arr_view(a: Option<&Vec<MsgValue>>) -> Option<Seq<MsgValue>> {
    match a {
        Some(v) => Some(v@),
        None => None,
    }
}

fn load_info_jobs_in<'a>(cur0: Option<&'a Vec<MsgValue>>, m: &'a Vec<(MsgValue, MsgValue)>) -> (r:
    Option<&'a Vec<MsgValue>>)
    ensures
        opt_arr_view(r) == load_info_jobs_after(opt_arr_view(cur0), m@),
{
    let mut cur = cur0;
    let mut i: usize = 0;
    while i < m.len()
        invariant
            i <= m@.len(),
            opt_arr_view(cur) == load_info_jobs_after(opt_arr_view(cur0), m@.take(i as int)),
        decreases m.len() - i,
    {
        assert(m@.take(i + 1).drop_last() =~= m@.take(i as int));
        let p = &m[i];
        if key_equals(&p.0, "jobs_going_info_array") {
            match &p.1 {
                MsgValue::Array(a) => {
                    cur = Some(a);
                },
                _ => {},
            }
        }
        i += 1;
    }
    assert(m@.take(m@.len() as int) =~= m@);
    cur
}

fn card_id_in(cur0: i32, m: &Vec<(MsgValue, MsgValue)>) -> (r: i32)
    ensures
        r == card_id_after(cur0, m@),
{
    let mut cur = cur0;
    let mut i: usize = 0;
    while i < m.len()
        invariant
            i <= m@.len(),
            cur == card_id_after(cur0, m@.take(i as int)),
        decreases m.len() - i,
    {
        assert(m@.take(i + 1).drop_last() =~= m@.take(i as int));
        let p = &m[i];
        if key_equals(&p.0, "card_id") {
            cur = match int_of(&p.1) {
                Some(n) => #[verifier::truncate] (n as i32),
                None => 0,
            };
        }
        i += 1;
    }
    assert(m@.take(m@.len() as int) =~= m@);
    cur
}

fn read_job(index: usize, m: &Vec<(MsgValue, MsgValue)>) -> (j: JobInfo)
    ensures
        j@ == (JobView {
            index: index as int,
            reward_id: scan_job(m@).reward_id,
            end_time: scan_job(m@).end_time,
            leader_card_id: scan_job(m@).leader_card_id,
        }),
{
    let mut reward_id: i32 = 0;
    let mut end_time: String = String::new();
    let mut leader_card_id: i32 = 0;
    let mut i: usize = 0;
    while i < m.len()
        invariant
            i <= m@.len(),
            scan_job(m@.take(i as int)) == (JobScan {
                reward_id,
                end_time: end_time@,
                leader_card_id,
            }),
        decreases m.len() - i,
    {
        assert(m@.take(i + 1).drop_last() =~= m@.take(i as int));
        let p = &m[i];
        if key_equals(&p.0, "jobs_reward_id") {
            reward_id = match int_of(&p.1) {
                Some(n) => #[verifier::truncate] (n as i32),
                None => 0,
            };
        } else if key_equals(&p.0, "end_time") {
            end_time = match &p.1 {
                MsgValue::String(Some(s)) => s.clone(),
                _ => String::new(),
            };
        } else if key_equals(&p.0, "attend_card_info_array") {
            match &p.1 {
                MsgValue::Array(cards) => {
                    if cards.len() > 0 {
                        match &cards[0] {
                            MsgValue::Dict(cm) => {
                                leader_card_id = card_id_in(leader_card_id, cm);
                            },
                            _ => {},
                        }
                    }
                },
                _ => {},
            }
        }
        i += 1;
    }
    assert(m@.take(m@.len() as int) =~= m@);
    JobInfo { index, reward_id, end_time, leader_card_id }
}

fn read_jobs(arr: &Vec<MsgValue>) -> (r: Vec<JobInfo>)
    ensures
        r@.map_values(|j: JobInfo| j@) == jobs_of(arr@, arr@.len() as int),
{
    let mut out: Vec<JobInfo> = Vec::new();
    let mut i: usize = 0;
    while i < arr.len()
        invariant
            i <= arr@.len(),
            out@.map_values(|j: JobInfo| j@) == jobs_of(arr@, i as int),
        decreases arr.len() - i,
    {
        let ghost before = out@;
        match &arr[i] {
            MsgValue::Dict(m) => {
                let j = read_job(i, m);
                out.push(j);
                assert(out@.map_values(|j: JobInfo| j@) =~= before.map_values(|j: JobInfo| j@).push(
                    j@,
                ));
            },
            _ => {},
        }
        i += 1;
    }
    out
}

/// The decoded response as the reminders see it.
pub struct ResponseReader {
    /// The leader character of the player's profile, as last seen in a
    /// response (1001 until one names it).
    pub leader_chara_id: i32,
}

impl ResponseReader {
    /// A reader that has seen no response yet.
    pub fn new() -> (r: Self)
        ensures
            r.leader_chara_id == 1001,
    {
        ResponseReader { leader_chara_id: 1001 }
    }

    /// Reads one `data` map: records the leader character it names and
    /// reports the recovery times and jobs it holds.
    pub fn parse_data_map(&mut self, pairs: &Vec<(MsgValue, MsgValue)>) -> (r: DataMapReport)
        ensures
            r@ == data_map_report(old(self).leader_chara_id, pairs@),
            final(self).leader_chara_id == r.leader_chara_id,
    {
        let ghost st0 = DataScan { leader: self.leader_chara_id, tp: None, rp: None, jobs: None };
        let mut leader = self.leader_chara_id;
        let mut tp: Option<i64> = None;
        let mut rp: Option<i64> = None;
        let mut jobs: Option<&Vec<MsgValue>> = None;
        let mut i: usize = 0;
        while i < pairs.len()
            invariant
                i <= pairs@.len(),
                scan_data_map(st0, pairs@.take(i as int)) == (DataScan {
                    leader,
                    tp,
                    rp,
                    jobs: opt_arr_view(jobs),
                }),
            decreases pairs.len() - i,
        {
            assert(pairs@.take(i + 1).drop_last() =~= pairs@.take(i as int));
            let p = &pairs[i];
            let k = &p.0;
            let v = &p.1;
            if key_equals(k, "user_info") {
                match v {
                    MsgValue::Dict(m) => {
                        leader = leader_in(leader, m);
                    },
                    _ => {},
                }
            } else if key_equals(k, "tp_info") {
                match v {
                    MsgValue::Dict(m) => {
                        tp = recovery_in(tp, m);
                    },
                    _ => {},
                }
            } else if key_equals(k, "rp_info") {
                match v {
                    MsgValue::Dict(m) => {
                        rp = recovery_in(rp, m);
                    },
                    _ => {},
                }
            } else if key_equals(k, "jobs_going_info_array") {
                match v {
                    MsgValue::Array(a) => {
                        jobs = Some(a);
                    },
                    _ => {},
                }
            } else if key_equals(k, "jobs_load_info") {
                match v {
                    MsgValue::Dict(m) => {
                        jobs = load_info_jobs_in(jobs, m);
                    },
                    _ => {},
                }
            }
            i += 1;
        }
        assert(pairs@.take(pairs@.len() as int) =~= pairs@);
        self.leader_chara_id = leader;
        let job_list = match jobs {
            Some(a) => Some(read_jobs(a)),
            None => None,
        };
        DataMapReport { leader_chara_id: leader, tp_recovery_time: tp, rp_recovery_time: rp, jobs: job_list }
    }
}

// ---------------------------------------------------------------------------
// Whole responses
// ---------------------------------------------------------------------------

/// The reports of the `data` entries among `pairs`, in order, each read with
/// the leader id that the entries before it left; and the final leader id.
pub open spec fn reports_of(leader: i32, pairs: Seq<(MsgValue, MsgValue)>) -> (
    i32,
    Seq<DataMapReportView>,
)
    decreases pairs.len(),
{
    if pairs.len() == 0 {
        (leader, Seq::<DataMapReportView>::empty())
    } else {
        let (l, rs) = reports_of(leader, pairs.drop_last());
        let (k, v) = pairs.last();
        if key_is(k, "data"@) {
            match v {
                MsgValue::Dict(m) => {
                    let r = data_map_report(l, m@);
                    (r.leader_chara_id, rs.push(r))
                },
                _ => (l, rs),
            }
        } else {
            (l, rs)
        }
    }
}

/// The reports of a decoded response: only a top-level map has `data`
/// entries.
pub open spec fn response_reports(leader: i32, v: Option<MsgValue>) -> (
    i32,
    Seq<DataMapReportView>,
) {
    match v {
        Some(MsgValue::Dict(p)) => reports_of(leader, p@),
        _ => (leader, Seq::<DataMapReportView>::empty()),
    }
}

/// Which reminders are enabled.
pub struct NotificationFlags {
    pub tp: bool,
    pub rp: bool,
    pub jobs: bool,
}

impl ResponseReader {
    /// Reads every `data` map of a decoded response, in order.
    pub fn read_decoded(&mut self, value: &MsgValue) -> (r: Vec<DataMapReport>)
        ensures
            (final(self).leader_chara_id, r@.map_values(|d: DataMapReport| d@))
                == response_reports(old(self).leader_chara_id, Some(*value)),
    {
        let mut out: Vec<DataMapReport> = Vec::new();
        match value {
            MsgValue::Dict(pairs) => {
                let ghost l0 = self.leader_chara_id;
                let mut i: usize = 0;
                while i < pairs.len()
                    invariant
                        i <= pairs@.len(),
                        (self.leader_chara_id, out@.map_values(|d: DataMapReport| d@))
                            == reports_of(l0, pairs@.take(i as int)),
                    decreases pairs.len() - i,
                {
                    assert(pairs@.take(i + 1).drop_last() =~= pairs@.take(i as int));
                    let p = &pairs[i];
                    if key_equals(&p.0, "data") {
                        match &p.1 {
                            MsgValue::Dict(m) => {
                                let ghost before = out@;
                                let rep = self.parse_data_map(m);
                                out.push(rep);
                                assert(out@.map_values(|d: DataMapReport| d@) =~= before.map_values(
                                    |d: DataMapReport| d@,
                                ).push(out@.last()@));
                            },
                            _ => {},
                        }
                    }
                    i += 1;
                }
                assert(pairs@.take(pairs@.len() as int) =~= pairs@);
            },
            _ => {
                assert(out@.map_values(|d: DataMapReport| d@) =~= Seq::<DataMapReportView>::empty());
            },
        }
        out
    }

    /// Reads a response body: nothing is decoded unless a reminder is
    /// enabled; otherwise the reports of its `data` maps, in order.
    pub fn read_response(&mut self, data: &[u8], flags: &NotificationFlags) -> (r: Vec<
        DataMapReport,
    >)
        ensures
            !(flags.tp || flags.rp || flags.jobs) ==> r@.len() == 0 && final(self).leader_chara_id
                == old(self).leader_chara_id,
            (flags.tp || flags.rp || flags.jobs) ==> (
                final(self).leader_chara_id,
                r@.map_values(|d: DataMapReport| d@),
            ) == response_reports(old(self).leader_chara_id, msgpack_decoded(data@)),
    {
        if !flags.tp && !flags.rp && !flags.jobs {
            return Vec::new();
        }
        match decode_msgpack(data) {
            Some(v) => self.read_decoded(&v),
            None => {
                let out: Vec<DataMapReport> = Vec::new();
                assert(out@.map_values(|d: DataMapReport| d@) =~= Seq::<DataMapReportView>::empty());
                out
            },
        }
    }
}

// ---------------------------------------------------------------------------
// Reminders
// ---------------------------------------------------------------------------

/// The resource whose recovery a reminder announces.
#[derive(PartialEq, Eq, Structural, Clone, Copy, Debug)]
pub enum ReminderKind {
    Tp,
    Rp,
}

/// A reminder to schedule at `time` (seconds since the Unix epoch).
#[derive(PartialEq, Eq, Structural, Clone, Copy, Debug)]
pub struct Reminder {
    pub kind: ReminderKind,
    pub time: i64,
}

/// What to schedule for one report.
pub struct ReminderPlan {
    /// Recovery reminders that are still ahead.
    pub reminders: Vec<Reminder>,
    /// The scheduled job reminders are to be withdrawn and rebuilt.
    pub replace_job_reminders: bool,
    /// The jobs with an attending card and an end time.
    pub jobs: Vec<JobInfo>,
}

pub open spec fn recovery_reminders(
    report: DataMapReportView,
    flags: NotificationFlags,
    now: i64,
) -> Seq<Reminder> {
    let tp = match report.tp_recovery_time {
        Some(t) => if flags.tp && t > now {
            seq![Reminder { kind: ReminderKind::Tp, time: t }]
        } else {
            Seq::<Reminder>::empty()
        },
        None => Seq::<Reminder>::empty(),
    };
    let rp = match report.rp_recovery_time {
        Some(t) => if flags.rp && t > now {
            seq![Reminder { kind: ReminderKind::Rp, time: t }]
        } else {
            Seq::<Reminder>::empty()
        },
        None => Seq::<Reminder>::empty(),
    };
    tp + rp
}

/// Recovery reminders are only for times still ahead, and each is for an
/// enabled resource, at that resource's recovery time: a recovery time at
/// or before `now` yields no reminder.
pub proof fn law_reminders_are_ahead(report: DataMapReportView, flags: NotificationFlags, now: i64)
    ensures
        forall|i: int|
            0 <= i < recovery_reminders(report, flags, now).len() ==> {
                let m = #[trigger] recovery_reminders(report, flags, now)[i];
                &&& m.time > now
                &&& m.kind == ReminderKind::Tp ==> flags.tp && report.tp_recovery_time == Some(m.time)
                &&& m.kind == ReminderKind::Rp ==> flags.rp && report.rp_recovery_time == Some(m.time)
            },
        (flags.tp && report.tp_recovery_time is Some && report.tp_recovery_time->0 > now) ==> recovery_reminders(
            report,
            flags,
            now,
        ).contains(Reminder { kind: ReminderKind::Tp, time: report.tp_recovery_time->0 }),
        (flags.rp && report.rp_recovery_time is Some && report.rp_recovery_time->0 > now) ==> recovery_reminders(
            report,
            flags,
            now,
        ).contains(Reminder { kind: ReminderKind::Rp, time: report.rp_recovery_time->0 }),
{
    let r = recovery_reminders(report, flags, now);
    if flags.tp && report.tp_recovery_time is Some && report.tp_recovery_time->0 > now {
        assert(r[0] == Reminder { kind: ReminderKind::Tp, time: report.tp_recovery_time->0 });
    }
    if flags.rp && report.rp_recovery_time is Some && report.rp_recovery_time->0 > now {
        assert(r[r.len() - 1] == Reminder { kind: ReminderKind::Rp, time: report.rp_recovery_time->0 });
    }
}

/// A job gets a reminder when a card attends it and it has an end time.
pub open spec fn job_remindable(j: JobView) -> bool {
    j.leader_card_id > 0 && j.end_time.len() > 0
}

/// Plans the reminders of one report at time `now`.
pub fn plan_reminders(report: &DataMapReport, flags: &NotificationFlags, now_secs: i64) -> (p:
    ReminderPlan)
    ensures
        p.reminders@ == recovery_reminders(report@, *flags, now_secs),
        forall|i: int| 0 <= i < p.reminders@.len() ==> #[trigger] p.reminders@[i].time > now_secs,
        p.replace_job_reminders == (flags.jobs && report.jobs is Some),
        (flags.jobs && report.jobs is Some) ==> p.jobs@.map_values(|j: JobInfo| j@)
            == report@.jobs->0.filter(|j: JobView| job_remindable(j)),
        !(flags.jobs && report.jobs is Some) ==> p.jobs@.len() == 0,
{
    let mut reminders: Vec<Reminder> = Vec::new();
    match report.tp_recovery_time {
        Some(t) => {
            if flags.tp && t > now_secs {
                reminders.push(Reminder { kind: ReminderKind::Tp, time: t });
            }
        },
        None => {},
    }
    let ghost after_tp = reminders@;
    match report.rp_recovery_time {
        Some(t) => {
            if flags.rp && t > now_secs {
                reminders.push(Reminder { kind: ReminderKind::Rp, time: t });
            }
        },
        None => {},
    }
    assert(reminders@ =~= recovery_reminders(report@, *flags, now_secs));
    proof {
        law_reminders_are_ahead(report@, *flags, now_secs);
    }
    let mut jobs: Vec<JobInfo> = Vec::new();
    let replace = flags.jobs && report.jobs.is_some();
    if flags.jobs {
        match &report.jobs {
            Some(list) => {
                let ghost all = list@.map_values(|j: JobInfo| j@);
                let mut i: usize = 0;
                while i < list.len()
                    invariant
                        i <= list@.len(),
                        all == list@.map_values(|j: JobInfo| j@),
                        jobs@.map_values(|j: JobInfo| j@) == all.take(i as int).filter(
                            |j: JobView| job_remindable(j),
                        ),
                    decreases list.len() - i,
                {
                    let ghost before = jobs@.map_values(|j: JobInfo| j@);
                    assert(all.take(i + 1).drop_last() =~= all.take(i as int));
                    proof {
                        reveal(Seq::filter);
                    }
                    let j = &list[i];
                    assert(all.take(i + 1).last() == j@);
                    if j.leader_card_id > 0 && !j.end_time.as_str().is_empty() {
                        let copy = JobInfo {
                            index: j.index,
                            reward_id: j.reward_id,
                            end_time: j.end_time.clone(),
                            leader_card_id: j.leader_card_id,
                        };
                        jobs.push(copy);
                        assert(jobs@.map_values(|j: JobInfo| j@) =~= before.push(copy@));
                    }
                    i += 1;
                }
                assert(all.take(list@.len() as int) =~= all);
            },
            None => {},
        }
    }
    ReminderPlan { reminders, replace_job_reminders: replace, jobs }
}

/// The message category of the reminder text for a resource.
pub fn reminder_message_category(kind: ReminderKind) -> (c: i32)
    ensures
        c == (if kind == ReminderKind::Tp {
            184i32
        } else {
            185i32
        }),
{
    match kind {
        ReminderKind::Tp => 184,
        ReminderKind::Rp => 185,
    }
}

/// The tag under which a recovery reminder is scheduled.
pub fn reminder_tag(kind: ReminderKind) -> (t: String)
    ensures
        t@ == (if kind == ReminderKind::Tp {
            "TP"@
        } else {
            "RP"@
        }),
{
    match kind {
        ReminderKind::Tp => "TP".to_owned(),
        ReminderKind::Rp => "RP".to_owned(),
    }
}

/// A reminder is scheduled only for a time still ahead.
pub fn reminder_due(time: i64, now_secs: i64) -> (due: bool)
    ensures
        due == (time > now_secs),
{
    time > now_secs
}

/// The delivery time of a reminder in 100 ns ticks since 1601, the clock of
/// the notification scheduler; `None` when it does not fit in an `i64`.
pub fn reminder_file_time(time: i64) -> (t: Option<i64>)
    ensures
        t is Some <==> (i64::MIN <= (time + 11644473600) * 10000000 <= i64::MAX),
        t matches Some(v) ==> v == (time + 11644473600) * 10000000,
{
    if time > i64::MAX - 11644473600 {
        return None;
    }
    let shifted = time + 11644473600;
    shifted.checked_mul(10000000)
}

/// Tags of scheduled job reminders begin with `Jobs_`.
pub fn is_job_reminder_tag(tag: &str) -> (r: bool)
    ensures
        r == has_prefix(tag@, "Jobs_"@),
{
    str_starts_with(tag, "Jobs_")
}

/// A reminder text from the master data: escaped line breaks become line
/// breaks.
pub fn reminder_text(raw: &str) -> (t: String)
    ensures
        t@ == replace_all(raw@, "\\n"@, "\n"@),
{
    proof {
        reveal_strlit("\\n");
    }
    replace_str(raw, "\\n", "\n")
}

/// The place name of a job: the track in lenticular brackets, then the
/// genre.
pub open spec fn job_place_name(track: Seq<char>, genre: Seq<char>) -> Seq<char> {
    seq!['【'] + track + seq!['】'] + genre
}

/// A job reminder text: escaped line breaks become line breaks and the
/// `<jobs_placename>` placeholder becomes the job's place name.
pub fn job_reminder_content(template: &str, track_name: &str, genre_name: &str) -> (t: String)
    ensures
        t@ == replace_all(
            replace_all(template@, "\\n"@, "\n"@),
            "<jobs_placename>"@,
            job_place_name(track_name@, genre_name@),
        ),
{
    proof {
        reveal_strlit("<jobs_placename>");
    }
    let text = reminder_text(template);
    let track = chars_of(track_name);
    let genre = chars_of(genre_name);
    let mut place: Vec<char> = Vec::new();
    place.push('【');
    let mut i: usize = 0;
    while i < track.len()
        invariant
            i <= track@.len(),
            place@ == seq!['【'] + track@.take(i as int),
        decreases track.len() - i,
    {
        place.push(track[i]);
        i += 1;
        assert(place@ =~= seq!['【'] + track@.take(i as int));
    }
    assert(track@.take(track@.len() as int) =~= track@);
    place.push('】');
    let ghost mid = place@;
    let mut k: usize = 0;
    while k < genre.len()
        invariant
            k <= genre@.len(),
            place@ == mid + genre@.take(k as int),
        decreases genre.len() - k,
    {
        place.push(genre[k]);
        k += 1;
        assert(place@ =~= mid + genre@.take(k as int));
    }
    assert(genre@.take(genre@.len() as int) =~= genre@);
    assert(place@ =~= job_place_name(track_name@, genre_name@));
    let place_str = string_from_chars(&place);
    replace_str(text.as_str(), "<jobs_placename>", place_str.as_str())
}

// ---------------------------------------------------------------------------
// Forwarding bodies to a listener
// ---------------------------------------------------------------------------

/// The endpoint of the listener that takes requests or responses.
pub open spec fn notifier_endpoint(is_request: bool) -> Seq<char> {
    if is_request {
        "/notify/request"@
    } else {
        "/notify/response"@
    }
}

/// Where a message-pack body is forwarded, if anywhere: nothing unless
/// forwarding is enabled, requests only when they are forwarded too; the
/// address is the host followed by the endpoint for the body's direction.
pub fn notifier_url(enabled: bool, forward_requests: bool, is_request: bool, host: &str) -> (r:
    Option<String>)
    ensures
        r is Some <==> (enabled && (!is_request || forward_requests)),
        r matches Some(u) ==> u@ == host@ + notifier_endpoint(is_request),
{
    if !enabled {
        return None;
    }
    if is_request && !forward_requests {
        return None;
    }
    let endpoint = if is_request {
        "/notify/request"
    } else {
        "/notify/response"
    };
    Some(concat_str(host, endpoint))
}

} // verus!
