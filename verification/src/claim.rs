//! What a load process says of its own work, and how that is read.
use vstd::prelude::*;

use crate::number::{
    decimal, decimal_is_digits, decimal_reads_back, is_digit, number_error, number_error_text,
    parse_u64, u64_text, unsigned_value,
};
use crate::text::{
    chars_of, copy_text, find_char, first_is_index_of, index_of, is_space, join, joined,
    joined_words_are_found, same_text, string_of, texts, words, words_of,
};

verus! {

/// What a load process says that it did.
#[derive(Debug)]
pub struct Claim {
    pub worker: u64,
    pub ops: u64,
    pub reads: u64,
    pub writes: u64,
    pub inserts: u64,
    pub updates: u64,
    pub deletes: u64,
    pub sum_seq: u64,
    pub sample: String,
    pub last: String,
}

/// What a load process says that it did.
pub struct ClaimState {
    pub worker: u64,
    pub ops: u64,
    pub reads: u64,
    pub writes: u64,
    pub inserts: u64,
    pub updates: u64,
    pub deletes: u64,
    pub sum_seq: u64,
    pub sample: Seq<char>,
    pub last: Seq<char>,
}

impl View for Claim {
    type V = ClaimState;

    open spec fn view(&self) -> ClaimState {
        ClaimState {
            worker: self.worker,
            ops: self.ops,
            reads: self.reads,
            writes: self.writes,
            inserts: self.inserts,
            updates: self.updates,
            deletes: self.deletes,
            sum_seq: self.sum_seq,
            sample: self.sample@,
            last: self.last@,
        }
    }
}

/// A claim in which nothing is said.
pub open spec fn no_claim() -> ClaimState {
    ClaimState {
        worker: 0,
        ops: 0,
        reads: 0,
        writes: 0,
        inserts: 0,
        updates: 0,
        deletes: 0,
        sum_seq: 0,
        sample: seq![],
        last: seq![],
    }
}

/// The key and the value of a word, where it has an equals sign.
pub open spec fn key_value(word: Seq<char>) -> Option<(Seq<char>, Seq<char>)> {
    let i = index_of(word, '=');
    if i < word.len() {
        Some((word.take(i), word.skip(i + 1)))
    } else {
        None
    }
}

/// A claim with one more word read.
pub open spec fn with_word(c: ClaimState, word: Seq<char>) -> Result<ClaimState, Seq<char>> {
    match key_value(word) {
        None => Ok(c),
        Some((key, value)) => {
            if key == "sample"@ {
                Ok(ClaimState { sample: value, ..c })
            } else if key == "last"@ {
                Ok(ClaimState { last: value, ..c })
            } else if is_counter(key) {
                match unsigned_value(value, u64::MAX as nat) {
                    Ok(n) => Ok(with_counter(c, key, n as u64)),
                    Err(e) => Err(number_error_text(e)),
                }
            } else {
                Ok(c)
            }
        },
    }
}

/// Whether a key names a number of a claim.
pub open spec fn is_counter(key: Seq<char>) -> bool {
    ||| key == "worker"@
    ||| key == "ops"@
    ||| key == "reads"@
    ||| key == "writes"@
    ||| key == "inserts"@
    ||| key == "updates"@
    ||| key == "deletes"@
    ||| key == "sum_seq"@
}

/// A claim with one number replaced.
pub open spec fn with_counter(c: ClaimState, key: Seq<char>, n: u64) -> ClaimState {
    if key == "worker"@ {
        ClaimState { worker: n, ..c }
    } else if key == "ops"@ {
        ClaimState { ops: n, ..c }
    } else if key == "reads"@ {
        ClaimState { reads: n, ..c }
    } else if key == "writes"@ {
        ClaimState { writes: n, ..c }
    } else if key == "inserts"@ {
        ClaimState { inserts: n, ..c }
    } else if key == "updates"@ {
        ClaimState { updates: n, ..c }
    } else if key == "deletes"@ {
        ClaimState { deletes: n, ..c }
    } else {
        ClaimState { sum_seq: n, ..c }
    }
}

/// A claim with more words read, or why they are none.
pub open spec fn with_words(c: ClaimState, ws: Seq<Seq<char>>) -> Result<ClaimState, Seq<char>>
    decreases ws.len(),
{
    if ws.len() == 0 {
        Ok(c)
    } else {
        match with_word(c, ws[0]) {
            Ok(next) => with_words(next, ws.drop_first()),
            Err(why) => Err(why),
        }
    }
}

/// What is said of a claim whose numbers do not add up.
pub open spec fn sums_differ(worker: u64) -> Seq<char> {
    "worker "@ + decimal(worker as nat) + " reads+writes != ops"@
}

/// The claim that a line makes, or why it makes none. Reads and writes must add
/// up to the operations.
pub open spec fn claimed(line: Seq<char>) -> Result<ClaimState, Seq<char>> {
    match with_words(no_claim(), words(line)) {
        Ok(c) => if c.reads + c.writes == c.ops {
            Ok(c)
        } else {
            Err(sums_differ(c.worker))
        },
        Err(why) => Err(why),
    }
}

fn counter(c: &mut Claim, key: &str, value: &str) -> (r: Result<bool, String>)
    ensures
        match r {
            Ok(known) => known == is_counter(key@) && if known {
                &&& unsigned_value(value@, u64::MAX as nat) is Ok
                &&& final(c)@ == with_counter(
                    old(c)@,
                    key@,
                    unsigned_value(value@, u64::MAX as nat)->Ok_0 as u64,
                )
            } else {
                final(c)@ == old(c)@
            },
            Err(why) => {
                &&& is_counter(key@)
                &&& unsigned_value(value@, u64::MAX as nat) matches Err(e) && why@
                    == number_error_text(e)
            },
        },
{
    let known = same_text(key, "worker") || same_text(key, "ops") || same_text(key, "reads")
        || same_text(key, "writes") || same_text(key, "inserts") || same_text(key, "updates")
        || same_text(key, "deletes") || same_text(key, "sum_seq");
    if !known {
        return Ok(false);
    }
    let n: u64 = match parse_u64(value) {
        Ok(n) => n,
        Err(e) => {
            return Err(number_error(e));
        },
    };
    if same_text(key, "worker") {
        c.worker = n;
    } else if same_text(key, "ops") {
        c.ops = n;
    } else if same_text(key, "reads") {
        c.reads = n;
    } else if same_text(key, "writes") {
        c.writes = n;
    } else if same_text(key, "inserts") {
        c.inserts = n;
    } else if same_text(key, "updates") {
        c.updates = n;
    } else if same_text(key, "deletes") {
        c.deletes = n;
    } else {
        c.sum_seq = n;
    }
    Ok(true)
}

fn read_word(c: &mut Claim, word: &str) -> (r: Result<(), String>)
    ensures
        match r {
            Ok(_) => with_word(old(c)@, word@) == Ok::<ClaimState, Seq<char>>(final(c)@),
            Err(why) => with_word(old(c)@, word@) == Err::<ClaimState, Seq<char>>(why@),
        },
{
    let v = chars_of(word);
    assert(v@.skip(0) == v@);
    let i = find_char(&v, 0, '=');
    if i == v.len() {
        return Ok(());
    }
    let key = string_of(&v, 0, i);
    let value = string_of(&v, i + 1, v.len());
    proof {
        assert(key@ == word@.take(i as int));
        assert(value@ == word@.skip(i + 1));
    }
    if same_text(key.as_str(), "sample") {
        c.sample = value;
        return Ok(());
    }
    if same_text(key.as_str(), "last") {
        c.last = value;
        return Ok(());
    }
    match counter(c, key.as_str(), value.as_str()) {
        Ok(_) => Ok(()),
        Err(why) => Err(why),
    }
}

/// Reads the claim that a line makes.
pub fn parse_claim(line: &str) -> (r: Result<Claim, String>)
    ensures
        match r {
            Ok(c) => claimed(line@) == Ok::<ClaimState, Seq<char>>(c@),
            Err(why) => claimed(line@) == Err::<ClaimState, Seq<char>>(why@),
        },
{
    let ws = words_of(line);
    let mut c = Claim {
        worker: 0,
        ops: 0,
        reads: 0,
        writes: 0,
        inserts: 0,
        updates: 0,
        deletes: 0,
        sum_seq: 0,
        sample: String::new(),
        last: String::new(),
    };
    proof {
        assert(c@.sample == Seq::<char>::empty());
        assert(c@.last == Seq::<char>::empty());
        assert(texts(ws@).skip(0) == words(line@));
    }
    let mut i: usize = 0;
    while i < ws.len()
        invariant
            i <= ws.len(),
            texts(ws@) == words(line@),
            with_words(c@, texts(ws@).skip(i as int)) == with_words(no_claim(), words(line@)),
        decreases ws.len() - i,
    {
        proof {
            assert(texts(ws@).skip(i as int)[0] == ws@[i as int]@);
            assert(texts(ws@).skip(i as int).drop_first() == texts(ws@).skip(i + 1));
        }
        match read_word(&mut c, ws[i].as_str()) {
            Ok(_) => {},
            Err(why) => {
                return Err(why);
            },
        }
        i = i + 1;
    }
    let adds_up = match c.reads.checked_add(c.writes) {
        Some(sum) => sum == c.ops,
        None => false,
    };
    if !adds_up {
        let mut why = copy_text("worker ");
        why.append(u64_text(c.worker).as_str());
        why.append(" reads+writes != ops");
        return Err(why);
    }
    Ok(c)
}

// ----------------------------------------------------------------- report

/// A word with a key and a number.
pub open spec fn counted(key: Seq<char>, n: u64) -> Seq<char> {
    key + "="@ + decimal(n as nat)
}

/// The words of the line in which a load process reports.
pub open spec fn report_words(c: ClaimState, executed: u64, boot_ddl: u64, ms: u64) -> Seq<
    Seq<char>,
> {
    seq![
        counted("worker"@, c.worker),
        counted("ops"@, c.ops),
        counted("executed"@, executed),
        counted("reads"@, c.reads),
        counted("writes"@, c.writes),
        counted("inserts"@, c.inserts),
        counted("updates"@, c.updates),
        counted("deletes"@, c.deletes),
        counted("sum_seq"@, c.sum_seq),
        "sample="@ + c.sample,
        "last="@ + c.last,
        counted("boot_ddl"@, boot_ddl),
        "sql_err=0"@,
        "fatal=0"@,
        counted("ms"@, ms),
    ]
}

/// The line in which a load process reports.
pub open spec fn report_text(c: ClaimState, executed: u64, boot_ddl: u64, ms: u64) -> Seq<char> {
    join(report_words(c, executed, boot_ddl, ms), " "@)
}

fn counted_text(key: &str, n: u64) -> (out: String)
    ensures
        out@ == counted(key@, n),
{
    let mut out = copy_text(key);
    out.append("=");
    out.append(u64_text(n).as_str());
    out
}

fn labelled_text(label: &str, value: &str) -> (out: String)
    ensures
        out@ == label@ + value@,
{
    let mut out = copy_text(label);
    out.append(value);
    out
}

/// The line in which a load process reports.
pub fn report(c: &Claim, executed: u64, boot_ddl: u64, ms: u64) -> (out: String)
    ensures
        out@ == report_text(c@, executed, boot_ddl, ms),
{
    let mut ws: Vec<String> = Vec::new();
    ws.push(counted_text("worker", c.worker));
    ws.push(counted_text("ops", c.ops));
    ws.push(counted_text("executed", executed));
    ws.push(counted_text("reads", c.reads));
    ws.push(counted_text("writes", c.writes));
    ws.push(counted_text("inserts", c.inserts));
    ws.push(counted_text("updates", c.updates));
    ws.push(counted_text("deletes", c.deletes));
    ws.push(counted_text("sum_seq", c.sum_seq));
    ws.push(labelled_text("sample=", c.sample.as_str()));
    ws.push(labelled_text("last=", c.last.as_str()));
    ws.push(counted_text("boot_ddl", boot_ddl));
    ws.push(copy_text("sql_err=0"));
    ws.push(copy_text("fatal=0"));
    ws.push(counted_text("ms", ms));
    assert(texts(ws@) =~= report_words(c@, executed, boot_ddl, ms));
    joined(&ws, " ")
}

proof fn label_is_found(key: Seq<char>, value: Seq<char>)
    requires
        forall|j: int| 0 <= j < key.len() ==> #[trigger] key[j] != '=',
    ensures
        key_value(key + "="@ + value) == Some((key, value)),
{
    reveal_strlit("=");
    let word = key + "="@ + value;
    assert forall|j: int| 0 <= j < key.len() implies #[trigger] word[j] != '=' by {
        assert(word[j] == key[j]);
    }
    assert(word[key.len() as int] == '=');
    first_is_index_of(word, '=', key.len() as int);
    assert(word.take(key.len() as int) == key);
    assert(word.skip(key.len() as int + 1) == value);
}

/// The keys of a report differ where the reader tells them apart, and hold no
/// equals sign.
proof fn keys_are_plain()
    ensures
        forall|j: int| 0 <= j < "worker"@.len() ==> #[trigger] "worker"@[j] != '=',
        forall|j: int| 0 <= j < "ops"@.len() ==> #[trigger] "ops"@[j] != '=',
        forall|j: int| 0 <= j < "executed"@.len() ==> #[trigger] "executed"@[j] != '=',
        forall|j: int| 0 <= j < "reads"@.len() ==> #[trigger] "reads"@[j] != '=',
        forall|j: int| 0 <= j < "writes"@.len() ==> #[trigger] "writes"@[j] != '=',
        forall|j: int| 0 <= j < "inserts"@.len() ==> #[trigger] "inserts"@[j] != '=',
        forall|j: int| 0 <= j < "updates"@.len() ==> #[trigger] "updates"@[j] != '=',
        forall|j: int| 0 <= j < "deletes"@.len() ==> #[trigger] "deletes"@[j] != '=',
        forall|j: int| 0 <= j < "sum_seq"@.len() ==> #[trigger] "sum_seq"@[j] != '=',
        forall|j: int| 0 <= j < "sample"@.len() ==> #[trigger] "sample"@[j] != '=',
        forall|j: int| 0 <= j < "last"@.len() ==> #[trigger] "last"@[j] != '=',
        forall|j: int| 0 <= j < "boot_ddl"@.len() ==> #[trigger] "boot_ddl"@[j] != '=',
        forall|j: int| 0 <= j < "sql_err"@.len() ==> #[trigger] "sql_err"@[j] != '=',
        forall|j: int| 0 <= j < "fatal"@.len() ==> #[trigger] "fatal"@[j] != '=',
        forall|j: int| 0 <= j < "ms"@.len() ==> #[trigger] "ms"@[j] != '=',
{
    reveal_strlit("worker");
    reveal_strlit("ops");
    reveal_strlit("executed");
    reveal_strlit("reads");
    reveal_strlit("writes");
    reveal_strlit("inserts");
    reveal_strlit("updates");
    reveal_strlit("deletes");
    reveal_strlit("sum_seq");
    reveal_strlit("sample");
    reveal_strlit("last");
    reveal_strlit("boot_ddl");
    reveal_strlit("sql_err");
    reveal_strlit("fatal");
    reveal_strlit("ms");
}

/// The keys of a report that the reader tells apart.
proof fn keys_differ()
    ensures
        is_counter("worker"@) && is_counter("ops"@) && is_counter("reads"@) && is_counter(
            "writes"@,
        ) && is_counter("inserts"@) && is_counter("updates"@) && is_counter("deletes"@)
            && is_counter("sum_seq"@),
        "ops"@ != "worker"@,
        "reads"@ != "worker"@ && "reads"@ != "ops"@,
        "writes"@ != "worker"@ && "writes"@ != "ops"@ && "writes"@ != "reads"@,
        "inserts"@ != "worker"@ && "inserts"@ != "ops"@ && "inserts"@ != "reads"@ && "inserts"@
            != "writes"@,
        "updates"@ != "worker"@ && "updates"@ != "ops"@ && "updates"@ != "reads"@ && "updates"@
            != "writes"@ && "updates"@ != "inserts"@,
        "deletes"@ != "worker"@ && "deletes"@ != "ops"@ && "deletes"@ != "reads"@ && "deletes"@
            != "writes"@ && "deletes"@ != "inserts"@ && "deletes"@ != "updates"@,
        "sum_seq"@ != "worker"@ && "sum_seq"@ != "ops"@ && "sum_seq"@ != "reads"@ && "sum_seq"@
            != "writes"@ && "sum_seq"@ != "inserts"@ && "sum_seq"@ != "updates"@ && "sum_seq"@
            != "deletes"@,
        !is_counter("executed"@) && !is_counter("boot_ddl"@) && !is_counter("sql_err"@)
            && !is_counter("fatal"@) && !is_counter("ms"@) && !is_counter("sample"@)
            && !is_counter("last"@),
        "sample"@ != "last"@,
        "executed"@ != "sample"@ && "executed"@ != "last"@,
        "boot_ddl"@ != "sample"@ && "boot_ddl"@ != "last"@,
        "sql_err"@ != "sample"@ && "sql_err"@ != "last"@,
        "fatal"@ != "sample"@ && "fatal"@ != "last"@,
        "ms"@ != "sample"@ && "ms"@ != "last"@,
{
    reveal_strlit("worker");
    reveal_strlit("ops");
    reveal_strlit("executed");
    reveal_strlit("reads");
    reveal_strlit("writes");
    reveal_strlit("inserts");
    reveal_strlit("updates");
    reveal_strlit("deletes");
    reveal_strlit("sum_seq");
    reveal_strlit("sample");
    reveal_strlit("last");
    reveal_strlit("boot_ddl");
    reveal_strlit("sql_err");
    reveal_strlit("fatal");
    reveal_strlit("ms");
    assert("worker"@.len() == 6);
    assert("ops"@.len() == 3);
    assert("executed"@.len() == 8);
    assert("reads"@.len() == 5);
    assert("writes"@.len() == 6);
    assert("inserts"@.len() == 7);
    assert("updates"@.len() == 7);
    assert("deletes"@.len() == 7);
    assert("sum_seq"@.len() == 7);
    assert("sample"@.len() == 6);
    assert("last"@.len() == 4);
    assert("boot_ddl"@.len() == 8);
    assert("sql_err"@.len() == 7);
    assert("fatal"@.len() == 5);
    assert("ms"@.len() == 2);
    assert("worker"@[0] != "writes"@[0] || "worker"@[1] != "writes"@[1]);
    assert("inserts"@[0] != "updates"@[0]);
    assert("inserts"@[0] != "deletes"@[0]);
    assert("inserts"@[0] != "sum_seq"@[0]);
    assert("updates"@[0] != "deletes"@[0]);
    assert("updates"@[0] != "sum_seq"@[0]);
    assert("deletes"@[0] != "sum_seq"@[0]);
    assert("sql_err"@[0] != "inserts"@[0]);
    assert("sql_err"@[0] != "updates"@[0]);
    assert("sql_err"@[0] != "deletes"@[0]);
    assert("sql_err"@[1] != "sum_seq"@[1]);
    assert("sample"@[0] != "worker"@[0]);
    assert("sample"@[0] != "writes"@[0]);
    assert("fatal"@[0] != "reads"@[0]);
}

proof fn counter_is_read(c: ClaimState, key: Seq<char>, n: u64)
    requires
        is_counter(key),
        forall|j: int| 0 <= j < key.len() ==> #[trigger] key[j] != '=',
    ensures
        with_word(c, counted(key, n)) == Ok::<ClaimState, Seq<char>>(with_counter(c, key, n)),
{
    keys_differ();
    label_is_found(key, decimal(n as nat));
    decimal_reads_back(n as nat, u64::MAX as nat);
}

proof fn other_word_is_skipped(c: ClaimState, key: Seq<char>, value: Seq<char>)
    requires
        !is_counter(key),
        key != "sample"@,
        key != "last"@,
        forall|j: int| 0 <= j < key.len() ==> #[trigger] key[j] != '=',
    ensures
        with_word(c, key + "="@ + value) == Ok::<ClaimState, Seq<char>>(c),
{
    label_is_found(key, value);
}

proof fn words_go_on(c: ClaimState, ws: Seq<Seq<char>>, i: int, next: ClaimState)
    requires
        0 <= i < ws.len(),
        with_word(c, ws[i]) == Ok::<ClaimState, Seq<char>>(next),
    ensures
        with_words(c, ws.skip(i)) == with_words(next, ws.skip(i + 1)),
{
    assert(ws.skip(i)[0] == ws[i]);
    assert(ws.skip(i).drop_first() == ws.skip(i + 1));
}

/// The text holds no whitespace.
pub open spec fn is_tight(s: Seq<char>) -> bool {
    forall|j: int| 0 <= j < s.len() ==> !is_space(#[trigger] s[j])
}

proof fn tight_parts(a: Seq<char>, b: Seq<char>)
    requires
        is_tight(a),
        is_tight(b),
    ensures
        is_tight(a + b),
{
    assert forall|j: int| 0 <= j < (a + b).len() implies !is_space(#[trigger] (a + b)[j]) by {
        if j < a.len() {
            assert((a + b)[j] == a[j]);
        } else {
            assert((a + b)[j] == b[j - a.len()]);
        }
    }
}

proof fn counted_is_a_word(key: Seq<char>, n: u64)
    requires
        is_tight(key),
    ensures
        is_tight(counted(key, n)),
        counted(key, n).len() > 0,
{
    reveal_strlit("=");
    decimal_is_digits(n as nat);
    let digits = decimal(n as nat);
    assert forall|j: int| 0 <= j < digits.len() implies !is_space(#[trigger] digits[j]) by {
        assert(is_digit(digits[j]));
    }
    tight_parts(key, "="@);
    tight_parts(key + "="@, digits);
}

proof fn report_words_are_words(c: ClaimState, executed: u64, boot_ddl: u64, ms: u64)
    requires
        is_tight(c.sample),
        is_tight(c.last),
    ensures
        ({
            let ws = report_words(c, executed, boot_ddl, ms);
            forall|i: int| 0 <= i < ws.len() ==> is_tight(#[trigger] ws[i]) && ws[i].len() > 0
        }),
{
    reveal_strlit("worker");
    reveal_strlit("ops");
    reveal_strlit("executed");
    reveal_strlit("reads");
    reveal_strlit("writes");
    reveal_strlit("inserts");
    reveal_strlit("updates");
    reveal_strlit("deletes");
    reveal_strlit("sum_seq");
    reveal_strlit("sample=");
    reveal_strlit("last=");
    reveal_strlit("boot_ddl");
    reveal_strlit("sql_err=0");
    reveal_strlit("fatal=0");
    reveal_strlit("ms");
    counted_is_a_word("worker"@, c.worker);
    counted_is_a_word("ops"@, c.ops);
    counted_is_a_word("executed"@, executed);
    counted_is_a_word("reads"@, c.reads);
    counted_is_a_word("writes"@, c.writes);
    counted_is_a_word("inserts"@, c.inserts);
    counted_is_a_word("updates"@, c.updates);
    counted_is_a_word("deletes"@, c.deletes);
    counted_is_a_word("sum_seq"@, c.sum_seq);
    counted_is_a_word("boot_ddl"@, boot_ddl);
    counted_is_a_word("ms"@, ms);
    tight_parts("sample="@, c.sample);
    tight_parts("last="@, c.last);
}

#[verifier::rlimit(40)]
proof fn a_report_is_read(c: ClaimState, executed: u64, boot_ddl: u64, ms: u64)
    requires
        is_tight(c.sample),
        is_tight(c.last),
    ensures
        with_words(no_claim(), words(report_text(c, executed, boot_ddl, ms))) == Ok::<
            ClaimState,
            Seq<char>,
        >(c),
{
    let ws = report_words(c, executed, boot_ddl, ms);
    report_words_are_words(c, executed, boot_ddl, ms);
    assert forall|i: int, j: int| 0 <= i < ws.len() && 0 <= j < ws[i].len() implies !is_space(
        #[trigger] ws[i][j],
    ) by {
        assert(is_tight(ws[i]));
    }
    joined_words_are_found(ws);
    keys_are_plain();
    keys_differ();
    let c0 = no_claim();
    let c1 = ClaimState { worker: c.worker, ..c0 };
    counter_is_read(c0, "worker"@, c.worker);
    words_go_on(c0, ws, 0, c1);
    let c2 = ClaimState { ops: c.ops, ..c1 };
    counter_is_read(c1, "ops"@, c.ops);
    words_go_on(c1, ws, 1, c2);
    other_word_is_skipped(c2, "executed"@, decimal(executed as nat));
    words_go_on(c2, ws, 2, c2);
    let c3 = ClaimState { reads: c.reads, ..c2 };
    counter_is_read(c2, "reads"@, c.reads);
    words_go_on(c2, ws, 3, c3);
    let c4 = ClaimState { writes: c.writes, ..c3 };
    counter_is_read(c3, "writes"@, c.writes);
    words_go_on(c3, ws, 4, c4);
    let c5 = ClaimState { inserts: c.inserts, ..c4 };
    counter_is_read(c4, "inserts"@, c.inserts);
    words_go_on(c4, ws, 5, c5);
    let c6 = ClaimState { updates: c.updates, ..c5 };
    counter_is_read(c5, "updates"@, c.updates);
    words_go_on(c5, ws, 6, c6);
    let c7 = ClaimState { deletes: c.deletes, ..c6 };
    counter_is_read(c6, "deletes"@, c.deletes);
    words_go_on(c6, ws, 7, c7);
    let c8 = ClaimState { sum_seq: c.sum_seq, ..c7 };
    counter_is_read(c7, "sum_seq"@, c.sum_seq);
    words_go_on(c7, ws, 8, c8);
    reveal_strlit("sample=");
    reveal_strlit("sample");
    reveal_strlit("last=");
    reveal_strlit("last");
    reveal_strlit("=");
    reveal_strlit("sql_err=0");
    reveal_strlit("sql_err");
    reveal_strlit("fatal=0");
    reveal_strlit("fatal");
    reveal_strlit("0");
    let c9 = ClaimState { sample: c.sample, ..c8 };
    label_is_found("sample"@, c.sample);
    assert("sample="@ =~= "sample"@ + "="@);
    words_go_on(c8, ws, 9, c9);
    label_is_found("last"@, c.last);
    assert("last="@ =~= "last"@ + "="@);
    words_go_on(c9, ws, 10, c);
    other_word_is_skipped(c, "boot_ddl"@, decimal(boot_ddl as nat));
    words_go_on(c, ws, 11, c);
    other_word_is_skipped(c, "sql_err"@, "0"@);
    assert("sql_err=0"@ =~= "sql_err"@ + "="@ + "0"@);
    words_go_on(c, ws, 12, c);
    other_word_is_skipped(c, "fatal"@, "0"@);
    assert("fatal=0"@ =~= "fatal"@ + "="@ + "0"@);
    words_go_on(c, ws, 13, c);
    other_word_is_skipped(c, "ms"@, decimal(ms as nat));
    words_go_on(c, ws, 14, c);
    assert(ws.skip(0) == ws);
    assert(ws.skip(15) == Seq::<Seq<char>>::empty());
}

/// What a load process reports is read as it was said, as long as its names
/// hold no whitespace and its numbers add up.
pub proof fn a_report_reads_back(c: ClaimState, executed: u64, boot_ddl: u64, ms: u64)
    requires
        c.reads + c.writes == c.ops,
        is_tight(c.sample),
        is_tight(c.last),
    ensures
        claimed(report_text(c, executed, boot_ddl, ms)) == Ok::<ClaimState, Seq<char>>(c),
{
    a_report_is_read(c, executed, boot_ddl, ms);
}

/// A claim that is accepted adds up.
pub proof fn an_accepted_claim_adds_up(line: Seq<char>)
    requires
        claimed(line) is Ok,
    ensures
        claimed(line)->Ok_0.reads + claimed(line)->Ok_0.writes == claimed(line)->Ok_0.ops,
{
}

/// A report whose numbers do not add up is refused, with the process named.
pub proof fn a_report_that_does_not_add_up_is_refused(
    c: ClaimState,
    executed: u64,
    boot_ddl: u64,
    ms: u64,
)
    requires
        is_tight(c.sample),
        is_tight(c.last),
        c.reads + c.writes != c.ops,
    ensures
        claimed(report_text(c, executed, boot_ddl, ms)) == Err::<ClaimState, Seq<char>>(
            "worker "@ + decimal(c.worker as nat) + " reads+writes != ops"@,
        ),
{
    a_report_is_read(c, executed, boot_ddl, ms);
}

} // verus!
