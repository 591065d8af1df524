//! How correlation metadata is attached to a record: as `key=value` tokens
//! appended to the message, or as fields merged into those of the record.

use crate::caller::{symbol_view, Symbol, SymbolView};
use crate::record::{field_views, Field, FieldView, Record, RecordView, Value, ValueView};
use crate::text::{copy_text, decimal, push_decimal, text_view};
use vstd::prelude::*;

verus! {

/// A text field under `key`, where there is a text.
pub open spec fn text_field(key: Seq<char>, text: Option<Seq<char>>) -> Seq<FieldView> {
    match text {
        Some(text) => seq![FieldView { key, value: ValueView::Text(text) }],
        None => Seq::empty(),
    }
}

/// A number field under `key`, where there is a number.
pub open spec fn number_field(key: Seq<char>, number: Option<u64>) -> Seq<FieldView> {
    match number {
        Some(n) => seq![FieldView { key, value: ValueView::Number(n) }],
        None => Seq::empty(),
    }
}

/// A line number as a field value.
pub open spec fn line_number(line: Option<u32>) -> Option<u64> {
    match line {
        Some(line) => Some(line as u64),
        None => None,
    }
}

/// The fields that a record gains, in their fixed order: `file`, `line` and
/// `fn_name` as far as the call site is known, `task_id`, `task_parent_id`
/// where there is a parent, and `thread_id` where the thread's number is
/// known.
pub open spec fn augmentation(
    frame: Option<SymbolView>,
    task_id: u64,
    parent_id: Option<u64>,
    thread_id: Option<u64>,
) -> Seq<FieldView> {
    let (file, line, fn_name) = match frame {
        Some(symbol) => (symbol.filename, symbol.lineno, symbol.name),
        None => (None, None, None),
    };
    text_field("file"@, file) + number_field("line"@, line_number(line)) + text_field(
        "fn_name"@,
        fn_name,
    ) + number_field("task_id"@, Some(task_id)) + number_field("task_parent_id"@, parent_id)
        + number_field("thread_id"@, thread_id)
}

/// A value as it is written in a message.
pub open spec fn value_text(value: ValueView) -> Seq<char> {
    match value {
        ValueView::Text(text) => text,
        ValueView::Number(n) => decimal(n as nat),
    }
}

/// One field as a token of a message: a comma, a space, the key, `=`, the value.
pub open spec fn token(field: FieldView) -> Seq<char> {
    seq![',', ' '] + field.key + seq!['='] + value_text(field.value)
}

/// The tokens of `fields`, one after the other.
pub open spec fn tokens(fields: Seq<FieldView>) -> Seq<char>
    decreases fields.len(),
{
    if fields.len() == 0 {
        Seq::empty()
    } else {
        tokens(fields.drop_last()) + token(fields.last())
    }
}

/// Whether some field of `fields` is named `key`.
pub open spec fn has_key(fields: Seq<FieldView>, key: Seq<char>) -> bool {
    exists|i: int| 0 <= i < fields.len() && (#[trigger] fields[i]).key == key
}

/// The fields of `extra` whose key no field of `own` has.
pub open spec fn fresh_fields(own: Seq<FieldView>, extra: Seq<FieldView>) -> Seq<FieldView> {
    extra.filter(|field: FieldView| !has_key(own, field.key))
}

/// The fields of a record after `extra` was merged in: those it had, then
/// those of `extra` whose key it did not have.
pub open spec fn merged(own: Seq<FieldView>, extra: Seq<FieldView>) -> Seq<FieldView> {
    own + fresh_fields(own, extra)
}

/// A record with its metadata attached: merged into the fields where the
/// backend takes structured fields, appended to the message where it does not.
pub open spec fn augmented(
    record: RecordView,
    structured: bool,
    frame: Option<SymbolView>,
    task_id: u64,
    parent_id: Option<u64>,
    thread_id: Option<u64>,
) -> RecordView {
    let extra = augmentation(frame, task_id, parent_id, thread_id);
    if structured {
        RecordView { fields: merged(record.fields, extra), ..record }
    } else {
        RecordView { message: record.message + tokens(extra), ..record }
    }
}

/// The views of a list with one more field.
pub proof fn lemma_field_views_push(fields: Seq<Field>, field: Field)
    ensures
        field_views(fields.push(field)) == field_views(fields).push(field@),
{
    assert(field_views(fields.push(field)) =~= field_views(fields).push(field@));
}

/// What one more field adds to the fresh ones.
pub proof fn lemma_fresh_push(own: Seq<FieldView>, extra: Seq<FieldView>, field: FieldView)
    ensures
        fresh_fields(own, extra.push(field)) == if has_key(own, field.key) {
            fresh_fields(own, extra)
        } else {
            fresh_fields(own, extra).push(field)
        },
{
    let longer = extra.push(field);
    assert(longer.drop_last() == extra);
    assert(longer.last() == field);
    reveal_with_fuel(Seq::filter, 2);
}

/// The tokens of a list with one more field.
pub proof fn lemma_tokens_push(fields: Seq<FieldView>, field: FieldView)
    ensures
        tokens(fields.push(field)) == tokens(fields) + token(field),
{
    let longer = fields.push(field);
    assert(longer.drop_last() == fields);
    assert(longer.last() == field);
}

/// The tokens of two lists, one after the other.
pub proof fn lemma_tokens_concat(a: Seq<FieldView>, b: Seq<FieldView>)
    ensures
        tokens(a + b) == tokens(a) + tokens(b),
    decreases b.len(),
{
    if b.len() == 0 {
        assert(a + b == a);
    } else {
        lemma_tokens_concat(a, b.drop_last());
        assert((a + b).drop_last() == a + b.drop_last());
        assert((a + b).last() == b.last());
    }
}

/// The value of the first field of `fields` named `key`.
pub open spec fn lookup(fields: Seq<FieldView>, key: Seq<char>) -> Option<ValueView>
    decreases fields.len(),
{
    if fields.len() == 0 {
        None
    } else if fields.first().key == key {
        Some(fields.first().value)
    } else {
        lookup(fields.drop_first(), key)
    }
}

/// Whether `message` holds the token of `field` somewhere.
pub open spec fn carries_token(message: Seq<char>, field: FieldView) -> bool {
    exists|i: int|
        0 <= i && i + token(field).len() <= message.len() && #[trigger] message.subrange(
            i,
            i + token(field).len(),
        ) == token(field)
}

/// A lookup in two lists, one after the other, finds what the first list
/// has, and turns to the second only for a key that the first lacks.
pub proof fn lemma_lookup_concat(a: Seq<FieldView>, b: Seq<FieldView>, key: Seq<char>)
    ensures
        lookup(a + b, key) == if has_key(a, key) {
            lookup(a, key)
        } else {
            lookup(b, key)
        },
    decreases a.len(),
{
    if a.len() == 0 {
        assert(a + b == b);
    } else if a.first().key == key {
        assert(a[0].key == key);
        assert((a + b).first() == a.first());
    } else {
        let rest = a.drop_first();
        lemma_lookup_concat(rest, b, key);
        assert((a + b).first() == a.first());
        assert((a + b).drop_first() == rest + b);
        if has_key(a, key) {
            let i = choose|i: int| 0 <= i < a.len() && (#[trigger] a[i]).key == key;
            assert(rest[i - 1].key == key);
        }
        if has_key(rest, key) {
            let i = choose|i: int| 0 <= i < rest.len() && (#[trigger] rest[i]).key == key;
            assert(a[i + 1].key == key);
        }
    }
}

/// No fresh field has a key that the record has already.
pub proof fn lemma_fresh_are_new(own: Seq<FieldView>, extra: Seq<FieldView>, i: int)
    requires
        0 <= i < fresh_fields(own, extra).len(),
    ensures
        !has_key(own, fresh_fields(own, extra)[i].key),
{
    extra.lemma_filter_pred(|field: FieldView| !has_key(own, field.key), i);
}

/// Which keys a merge holds: those that the record had and those of the extra fields.
pub proof fn lemma_merged_keys(own: Seq<FieldView>, extra: Seq<FieldView>, key: Seq<char>)
    ensures
        has_key(merged(own, extra), key) <==> has_key(own, key) || has_key(extra, key),
    decreases extra.len(),
{
    let all = merged(own, extra);
    let fresh = fresh_fields(own, extra);
    if has_key(own, key) {
        let i = choose|i: int| 0 <= i < own.len() && (#[trigger] own[i]).key == key;
        assert(all[i].key == key);
    } else if extra.len() == 0 {
        assert(fresh.len() == 0);
        assert(all == own);
    } else {
        let rest = extra.drop_last();
        let last = extra.last();
        assert(extra == rest.push(last));
        lemma_fresh_push(own, rest, last);
        lemma_merged_keys(own, rest, key);
        let shorter = merged(own, rest);
        if has_key(own, last.key) {
            assert(all == shorter);
            if has_key(extra, key) {
                let i = choose|i: int| 0 <= i < extra.len() && (#[trigger] extra[i]).key == key;
                if i < rest.len() {
                    assert(rest[i].key == key);
                }
            }
            if has_key(rest, key) {
                let i = choose|i: int| 0 <= i < rest.len() && (#[trigger] rest[i]).key == key;
                assert(extra[i].key == key);
            }
        } else {
            assert(all == shorter.push(last));
            if has_key(all, key) {
                let i = choose|i: int| 0 <= i < all.len() && (#[trigger] all[i]).key == key;
                if i < shorter.len() {
                    assert(shorter[i].key == key);
                    let j = choose|j: int| 0 <= j < rest.len() && (#[trigger] rest[j]).key == key;
                    assert(extra[j].key == key);
                } else {
                    assert(extra[extra.len() - 1].key == key);
                }
            }
            if has_key(extra, key) {
                let i = choose|i: int| 0 <= i < extra.len() && (#[trigger] extra[i]).key == key;
                if i < rest.len() {
                    assert(rest[i].key == key);
                    let j = choose|j: int|
                        0 <= j < shorter.len() && (#[trigger] shorter[j]).key == key;
                    assert(all[j].key == key);
                } else {
                    assert(all[all.len() - 1].key == key);
                }
            }
        }
    }
}

/// The merge rule: the record's own fields stay first and unchanged, no
/// added field has a key of theirs, and so a key that the record defines
/// keeps the value that the record gave it.
pub proof fn lemma_merge_keeps_own(
    own: Seq<FieldView>,
    extra: Seq<FieldView>,
    key: Seq<char>,
)
    requires
        has_key(own, key),
    ensures
        merged(own, extra).take(own.len() as int) == own,
        forall|i: int|
            own.len() <= i < merged(own, extra).len() ==> (#[trigger] merged(
                own,
                extra,
            )[i]).key != key,
        lookup(merged(own, extra), key) == lookup(own, key),
{
    let fresh = fresh_fields(own, extra);
    let all = merged(own, extra);
    assert(all.take(own.len() as int) == own);
    assert forall|i: int| own.len() <= i < all.len() implies (#[trigger] all[i]).key
        != key by {
        lemma_fresh_are_new(own, extra, i - own.len());
        assert(all[i] == fresh[i - own.len()]);
    }
    lemma_lookup_concat(own, fresh, key);
}

/// Every augmentation names the task, names the task's parent exactly
/// where there is one, and names the thread, by its number, exactly where
/// that number is known.
pub proof fn lemma_augmentation_keys(
    frame: Option<SymbolView>,
    task_id: u64,
    parent_id: Option<u64>,
    thread_id: Option<u64>,
)
    ensures
        has_key(augmentation(frame, task_id, parent_id, thread_id), "task_id"@),
        has_key(augmentation(frame, task_id, parent_id, thread_id), "task_parent_id"@)
            <==> parent_id is Some,
        has_key(augmentation(frame, task_id, parent_id, thread_id), "thread_id"@)
            <==> thread_id is Some,
        lookup(augmentation(frame, task_id, parent_id, thread_id), "task_id"@) == Some(
            ValueView::Number(task_id),
        ),
        lookup(augmentation(frame, task_id, parent_id, thread_id), "thread_id"@) == match thread_id {
            Some(id) => Some(ValueView::Number(id)),
            None => None,
        },
{
    reveal_strlit("file");
    reveal_strlit("line");
    reveal_strlit("fn_name");
    reveal_strlit("task_id");
    reveal_strlit("task_parent_id");
    reveal_strlit("thread_id");
    let (file, line, fn_name) = match frame {
        Some(symbol) => (symbol.filename, symbol.lineno, symbol.name),
        None => (None, None, None),
    };
    let site = text_field("file"@, file) + number_field("line"@, line_number(line)) + text_field(
        "fn_name"@,
        fn_name,
    );
    let task = number_field("task_id"@, Some(task_id));
    let parent = number_field("task_parent_id"@, parent_id);
    let thread = number_field("thread_id"@, thread_id);
    let all = augmentation(frame, task_id, parent_id, thread_id);
    assert(all == site + task + parent + thread);
    assert("task_id"@.len() == 7);
    assert("thread_id"@.len() == 9);
    assert("task_parent_id"@.len() == 14);
    assert("file"@.len() == 4);
    assert("line"@.len() == 4);
    assert(forall|i: int| 0 <= i < site.len() ==> (#[trigger] site[i]).key.len() <= 7 && site[i].key
        != "task_id"@) by {
        assert("fn_name"@[0] == 'f');
        assert("task_id"@[0] == 't');
    }
    assert(!has_key(site, "task_id"@));
    assert(all[site.len() as int].key == "task_id"@);
    if parent_id is Some {
        assert(all[site.len() as int + 1].key == "task_parent_id"@);
    } else {
        assert forall|i: int| 0 <= i < all.len() implies (#[trigger] all[i]).key
            != "task_parent_id"@ by {
            assert(all[i].key.len() <= 9);
        }
    }
    let ahead = site + task + parent;
    assert forall|i: int| 0 <= i < ahead.len() implies (#[trigger] ahead[i]).key
        != "thread_id"@ by {
        assert(ahead[i].key.len() != 9);
    }
    assert(!has_key(ahead, "thread_id"@));
    lemma_lookup_concat(ahead, thread, "thread_id"@);
    assert(ahead + thread == all);
    if thread_id is Some {
        assert(all[all.len() - 1].key == "thread_id"@);
        assert(thread.first().key == "thread_id"@);
    } else {
        assert(all == ahead);
    }
    lemma_lookup_concat(site, task + parent + thread, "task_id"@);
    assert(site + (task + parent + thread) == all);
    assert((task + parent + thread).first().key == "task_id"@);
}

/// Every augmented record carries the task's id, whichever way the
/// metadata is attached: as a field, or as a token of the message.
pub proof fn lemma_augmented_carries_task(
    record: RecordView,
    structured: bool,
    frame: Option<SymbolView>,
    task_id: u64,
    parent_id: Option<u64>,
    thread_id: Option<u64>,
)
    ensures
        structured ==> has_key(
            augmented(record, structured, frame, task_id, parent_id, thread_id).fields,
            "task_id"@,
        ),
        structured && !has_key(record.fields, "task_parent_id"@) ==> (has_key(
            augmented(record, structured, frame, task_id, parent_id, thread_id).fields,
            "task_parent_id"@,
        ) <==> parent_id is Some),
        !structured ==> carries_token(
            augmented(record, structured, frame, task_id, parent_id, thread_id).message,
            FieldView { key: "task_id"@, value: ValueView::Number(task_id) },
        ),
{
    let extra = augmentation(frame, task_id, parent_id, thread_id);
    let out = augmented(record, structured, frame, task_id, parent_id, thread_id);
    lemma_augmentation_keys(frame, task_id, parent_id, thread_id);
    if structured {
        lemma_merged_keys(record.fields, extra, "task_id"@);
        lemma_merged_keys(record.fields, extra, "task_parent_id"@);
    } else {
        let (file, line, fn_name) = match frame {
            Some(symbol) => (symbol.filename, symbol.lineno, symbol.name),
            None => (None, None, None),
        };
        let site = text_field("file"@, file) + number_field("line"@, line_number(line))
            + text_field("fn_name"@, fn_name);
        let field = FieldView { key: "task_id"@, value: ValueView::Number(task_id) };
        let rest = number_field("task_parent_id"@, parent_id) + number_field(
            "thread_id"@,
            thread_id,
        );
        assert(extra == (site + seq![field]) + rest);
        lemma_tokens_concat(site + seq![field], rest);
        lemma_tokens_concat(site, seq![field]);
        lemma_tokens_push(Seq::empty(), field);
        assert(seq![field] == Seq::<FieldView>::empty().push(field));
        assert(tokens(seq![field]) == token(field));
        let at: int = record.message.len() as int + tokens(site).len() as int;
        assert(out.message == record.message + tokens(site) + token(field) + tokens(rest));
        assert(out.message.subrange(at, at + token(field).len()) == token(field));
    }
}

/// A lookup finds something exactly for the keys that the fields have.
pub proof fn lemma_lookup_finds(fields: Seq<FieldView>, key: Seq<char>)
    ensures
        lookup(fields, key) is Some <==> has_key(fields, key),
    decreases fields.len(),
{
    if fields.len() == 0 {
    } else if fields.first().key == key {
        assert(fields[0].key == key);
    } else {
        let rest = fields.drop_first();
        lemma_lookup_finds(rest, key);
        if has_key(fields, key) {
            let i = choose|i: int| 0 <= i < fields.len() && (#[trigger] fields[i]).key == key;
            assert(rest[i - 1].key == key);
        }
        if has_key(rest, key) {
            let i = choose|i: int| 0 <= i < rest.len() && (#[trigger] rest[i]).key == key;
            assert(fields[i + 1].key == key);
        }
    }
}

/// For a key that the record lacks, the fresh fields hold what the extra
/// fields hold.
pub proof fn lemma_lookup_fresh(own: Seq<FieldView>, extra: Seq<FieldView>, key: Seq<char>)
    requires
        !has_key(own, key),
    ensures
        lookup(fresh_fields(own, extra), key) == lookup(extra, key),
    decreases extra.len(),
{
    if extra.len() == 0 {
        assert(fresh_fields(own, extra).len() == 0);
    } else {
        let rest = extra.drop_last();
        let last = extra.last();
        assert(extra == rest.push(last));
        lemma_fresh_push(own, rest, last);
        lemma_lookup_fresh(own, rest, key);
        lemma_lookup_concat(rest, seq![last], key);
        lemma_lookup_finds(rest, key);
        lemma_lookup_finds(fresh_fields(own, rest), key);
        let one = seq![last];
        assert(extra == rest + one);
        assert(one.first() == last);
        assert(lookup(one.drop_first(), key) is None);
        if !has_key(own, last.key) {
            let fresh = fresh_fields(own, rest);
            assert(fresh.push(last) == fresh + one);
            lemma_lookup_concat(fresh, one, key);
        }
    }
}

/// Every augmented record carries the id of its thread where that id is
/// known, whichever way the metadata is attached: as a field, unless the
/// record has a field of that name itself, or as a token of the message.
pub proof fn lemma_augmented_carries_thread(
    record: RecordView,
    structured: bool,
    frame: Option<SymbolView>,
    task_id: u64,
    parent_id: Option<u64>,
    id: u64,
)
    ensures
        structured && !has_key(record.fields, "thread_id"@) ==> lookup(
            augmented(record, structured, frame, task_id, parent_id, Some(id)).fields,
            "thread_id"@,
        ) == Some(ValueView::Number(id)),
        !structured ==> carries_token(
            augmented(record, structured, frame, task_id, parent_id, Some(id)).message,
            FieldView { key: "thread_id"@, value: ValueView::Number(id) },
        ),
{
    let extra = augmentation(frame, task_id, parent_id, Some(id));
    let out = augmented(record, structured, frame, task_id, parent_id, Some(id));
    lemma_augmentation_keys(frame, task_id, parent_id, Some(id));
    if structured {
        if !has_key(record.fields, "thread_id"@) {
            lemma_lookup_concat(record.fields, fresh_fields(record.fields, extra), "thread_id"@);
            lemma_lookup_fresh(record.fields, extra, "thread_id"@);
        }
    } else {
        let (file, line, fn_name) = match frame {
            Some(symbol) => (symbol.filename, symbol.lineno, symbol.name),
            None => (None, None, None),
        };
        let ahead = text_field("file"@, file) + number_field("line"@, line_number(line))
            + text_field("fn_name"@, fn_name) + number_field("task_id"@, Some(task_id))
            + number_field("task_parent_id"@, parent_id);
        let field = FieldView { key: "thread_id"@, value: ValueView::Number(id) };
        assert(extra == ahead.push(field));
        lemma_tokens_push(ahead, field);
        let at: int = record.message.len() as int + tokens(ahead).len() as int;
        assert(out.message == record.message + tokens(ahead) + token(field));
        assert(out.message.subrange(at, at + token(field).len()) == token(field));
    }
}

fn push_text_field(fields: &mut Vec<Field>, key: &str, text: &Option<String>)
    ensures
        field_views(final(fields)@) == field_views(old(fields)@) + text_field(
            key@,
            text_view(*text),
        ),
{
    match text {
        Some(text) => {
            let field = Field { key: key.to_owned(), value: Value::Text(text.clone()) };
            proof {
                lemma_field_views_push(fields@, field);
            }
            fields.push(field);
            assert(field_views(old(fields)@).push(field@) == field_views(old(fields)@) + seq![
                field@,
            ]);
        },
        None => {
            assert(field_views(fields@) + Seq::<FieldView>::empty() == field_views(fields@));
        },
    }
}

fn push_number_field(fields: &mut Vec<Field>, key: &str, number: Option<u64>)
    ensures
        field_views(final(fields)@) == field_views(old(fields)@) + number_field(key@, number),
{
    match number {
        Some(n) => {
            let field = Field { key: key.to_owned(), value: Value::Number(n) };
            proof {
                lemma_field_views_push(fields@, field);
            }
            fields.push(field);
            assert(field_views(old(fields)@).push(field@) == field_views(old(fields)@) + seq![
                field@,
            ]);
        },
        None => {
            assert(field_views(fields@) + Seq::<FieldView>::empty() == field_views(fields@));
        },
    }
}

/// The fields that a record gains, in their fixed order.
pub fn augmentation_fields(
    frame: &Option<Symbol>,
    task_id: u64,
    parent_id: Option<u64>,
    thread_id: Option<u64>,
) -> (fields: Vec<Field>)
    ensures
        field_views(fields@) == augmentation(
            symbol_view(*frame),
            task_id,
            parent_id,
            thread_id,
        ),
{
    let mut fields: Vec<Field> = Vec::new();
    assert(field_views(fields@) == Seq::<FieldView>::empty());
    match frame {
        Some(symbol) => {
            push_text_field(&mut fields, "file", &symbol.filename);
            let line: Option<u64> = match symbol.lineno {
                Some(line) => Some(line as u64),
                None => None,
            };
            push_number_field(&mut fields, "line", line);
            push_text_field(&mut fields, "fn_name", &symbol.name);
        },
        None => {},
    }
    push_number_field(&mut fields, "task_id", Some(task_id));
    push_number_field(&mut fields, "task_parent_id", parent_id);
    push_number_field(&mut fields, "thread_id", thread_id);
    assert(field_views(fields@) =~= augmentation(
        symbol_view(*frame),
        task_id,
        parent_id,
        thread_id,
    ));
    fields
}

/// Appends the tokens of `fields` to `message`.
pub fn append_tokens(message: &mut String, fields: &Vec<Field>)
    ensures
        final(message)@ == old(message)@ + tokens(field_views(fields@)),
{
    let mut i: usize = 0;
    assert(field_views(fields@).take(0) == Seq::<FieldView>::empty());
    while i < fields.len()
        invariant
            i <= fields.len(),
            message@ == old(message)@ + tokens(field_views(fields@).take(i as int)),
        decreases fields.len() - i,
    {
        let ghost done = field_views(fields@).take(i as int);
        let ghost field = fields[i as int]@;
        proof {
            assert(field_views(fields@).take(i + 1) == done.push(field));
            lemma_tokens_push(done, field);
        }
        message.push(',');
        message.push(' ');
        message.append(fields[i].key.as_str());
        message.push('=');
        match &fields[i].value {
            Value::Text(text) => {
                message.append(text.as_str());
            },
            Value::Number(n) => {
                push_decimal(message, *n);
            },
        }
        assert(message@ == old(message)@ + tokens(done) + token(field));
        i = i + 1;
    }
    assert(field_views(fields@).take(fields.len() as int) == field_views(fields@));
}

/// Whether some field of `fields` is named `key`.
pub fn contains_key(fields: &Vec<Field>, key: &String) -> (found: bool)
    ensures
        found == has_key(field_views(fields@), key@),
{
    let mut i: usize = 0;
    while i < fields.len()
        invariant
            i <= fields.len(),
            forall|j: int| 0 <= j < i ==> (#[trigger] field_views(fields@)[j]).key != key@,
        decreases fields.len() - i,
    {
        if fields[i].key == *key {
            assert(field_views(fields@)[i as int].key == key@);
            return true;
        }
        i = i + 1;
    }
    false
}

/// A copy of `fields`.
pub fn copy_fields(fields: &Vec<Field>) -> (copy: Vec<Field>)
    ensures
        copy@ == fields@,
{
    let mut copy: Vec<Field> = Vec::new();
    let mut i: usize = 0;
    while i < fields.len()
        invariant
            i <= fields.len(),
            copy@ == fields@.take(i as int),
        decreases fields.len() - i,
    {
        copy.push(fields[i].duplicate());
        assert(fields@.take(i + 1) == fields@.take(i as int).push(fields[i as int]));
        i = i + 1;
    }
    assert(fields@.take(fields.len() as int) == fields@);
    copy
}

/// Merges `extra` into `own`: the fields of `own` stay as they are and
/// come first; a field of `extra` is added only where `own` has none of
/// that name.
pub fn merge_fields(own: &Vec<Field>, extra: &Vec<Field>) -> (all: Vec<Field>)
    ensures
        field_views(all@) == merged(field_views(own@), field_views(extra@)),
{
    let mut all = copy_fields(own);
    let mut k: usize = 0;
    assert(field_views(extra@).take(0) == Seq::<FieldView>::empty());
    assert(field_views(all@) + Seq::<FieldView>::empty() == field_views(all@));
    while k < extra.len()
        invariant
            k <= extra.len(),
            field_views(all@) == field_views(own@) + fresh_fields(
                field_views(own@),
                field_views(extra@).take(k as int),
            ),
        decreases extra.len() - k,
    {
        let ghost seen = field_views(extra@).take(k as int);
        proof {
            assert(field_views(extra@).take(k + 1) == seen.push(extra[k as int]@));
            lemma_fresh_push(field_views(own@), seen, extra[k as int]@);
        }
        if !contains_key(own, &extra[k].key) {
            let field = extra[k].duplicate();
            proof {
                lemma_field_views_push(all@, field);
                let fresh = fresh_fields(field_views(own@), seen);
                assert((field_views(own@) + fresh).push(field@) == field_views(own@)
                    + fresh.push(field@));
            }
            all.push(field);
        }
        k = k + 1;
    }
    assert(field_views(extra@).take(extra.len() as int) == field_views(extra@));
    all
}

/// Attaches the metadata of one log call to `record`: merged into its
/// fields where `structured` is set, appended to its message where not.
pub fn augment(
    record: &Record,
    structured: bool,
    frame: &Option<Symbol>,
    task_id: u64,
    parent_id: Option<u64>,
    thread_id: Option<u64>,
) -> (out: Record)
    ensures
        out@ == augmented(
            record@,
            structured,
            symbol_view(*frame),
            task_id,
            parent_id,
            thread_id,
        ),
{
    let extra = augmentation_fields(frame, task_id, parent_id, thread_id);
    let mut message = record.message.clone();
    let fields = if structured {
        merge_fields(&record.fields, &extra)
    } else {
        append_tokens(&mut message, &extra);
        copy_fields(&record.fields)
    };
    Record {
        level: record.level,
        target: record.target.clone(),
        message,
        fields,
        module: copy_text(&record.module),
        file: copy_text(&record.file),
        line: record.line,
    }
}

} // verus!
