//! The output line: which entries a log event and its scope chain produce,
//! in what order, and the renderer that writes them as one flat JSON object
//! followed by a line terminator.
use vstd::prelude::*;
use crate::json::{json_quote, push_quoted, push_str_chars};
use crate::scope::{scope_view, scopes_view, Scope};
use crate::value::{entry_text, field_entry, push_field, push_key, Field};

verus! {

/// What a recorded-field text means: the entries of the JSON object it
/// spells, keys in the text's own order and values re-encoded compactly, or
/// nothing when the text does not spell a JSON object. The outside parser
/// defines this; no contract states its value on given text.
pub uninterp spec fn parsed_object_entries(blob: Seq<char>) -> Option<Seq<(Seq<char>, Seq<char>)>>;

/// Relies on serde_json::from_str and serde_json::to_string, with the
/// `preserve_order` feature: text that parses as a JSON object yields its
/// entries in the object's own key order, each value re-encoded as compact
/// JSON (a re-encoding that cannot fail for an already-parsed value); any
/// other text yields nothing.
#[verifier::external_body]
fn parse_object_entries(blob: &str) -> (r: Option<Vec<(String, String)>>)
    ensures
        r.deep_view() == parsed_object_entries(blob@),
{
    match serde_json::from_str::<serde_json::Value>(blob) {
        Ok(serde_json::Value::Object(map)) => Some(
            map.into_iter()
                .map(|(k, v)| (k, serde_json::to_string(&v).unwrap_or_default()))
                .collect(),
        ),
        _ => None,
    }
}

/// Relies on String::from_iter: the string holds exactly the given
/// characters in order.
#[verifier::external_body]
fn chars_to_string(v: Vec<char>) -> (r: String)
    ensures
        r@ == v@,
{
    v.into_iter().collect()
}

/// The optional `timestamp` entry and optional `target` entry around the
/// always-present `level` entry, in the fixed order.
pub open spec fn head_entries(
    ts: Option<Seq<char>>,
    level: Seq<char>,
    target: Option<Seq<char>>,
) -> Seq<Seq<char>> {
    (match ts {
        Option::Some(t) => seq![entry_text("timestamp"@, json_quote(t))],
        Option::None => Seq::empty(),
    }) + seq![entry_text("level"@, json_quote(level))] + (match target {
        Option::Some(t) => seq![entry_text("target"@, json_quote(t))],
        Option::None => Seq::empty(),
    })
}

/// The entries of the event's own fields, in the order the event produced
/// them.
pub open spec fn event_entries(fields: Seq<Field>) -> Seq<Seq<char>> {
    fields.map_values(|f: Field| field_entry(f))
}

/// The `span` entry: present only when at least one scope is active, naming
/// the innermost scope.
pub open spec fn span_entries(scopes: Seq<(Seq<char>, Option<Seq<char>>)>) -> Seq<Seq<char>> {
    if scopes.len() == 0 {
        Seq::empty()
    } else {
        seq![entry_text("span"@, json_quote(scopes[0].0))]
    }
}

/// The entries one scope's recorded field text contributes: the parsed
/// object's entries, or none when nothing was recorded or the text does not
/// spell a JSON object.
pub open spec fn scope_one_entries(blob: Option<Seq<char>>) -> Seq<Seq<char>> {
    match blob {
        Option::None => Seq::empty(),
        Option::Some(b) => match parsed_object_entries(b) {
            Option::None => Seq::empty(),
            Option::Some(pairs) => pairs.map_values(|p: (Seq<char>, Seq<char>)| entry_text(p.0, p.1)),
        },
    }
}

/// The scope-derived entries of the whole chain, innermost scope's fields
/// first, concatenated without any merging of repeated keys.
pub open spec fn scope_field_entries(scopes: Seq<(Seq<char>, Option<Seq<char>>)>) -> Seq<Seq<char>>
    decreases scopes.len(),
{
    if scopes.len() == 0 {
        Seq::empty()
    } else {
        scope_one_entries(scopes[0].1) + scope_field_entries(scopes.drop_first())
    }
}

/// Every entry of the line, in the fixed emission order: timestamp, level,
/// target, the event's fields, the span name, then each scope's recorded
/// fields.
pub open spec fn line_entries(
    ts: Option<Seq<char>>,
    level: Seq<char>,
    target: Option<Seq<char>>,
    fields: Seq<Field>,
    scopes: Seq<(Seq<char>, Option<Seq<char>>)>,
) -> Seq<Seq<char>> {
    head_entries(ts, level, target) + event_entries(fields) + span_entries(scopes)
        + scope_field_entries(scopes)
}

/// Entries joined with commas.
pub open spec fn join_entries(es: Seq<Seq<char>>) -> Seq<char>
    decreases es.len(),
{
    if es.len() == 0 {
        Seq::empty()
    } else if es.len() == 1 {
        es[0]
    } else {
        es[0] + seq![','] + join_entries(es.drop_first())
    }
}

/// The whole line: the entries between braces, and the line terminator.
pub open spec fn line_text(es: Seq<Seq<char>>) -> Seq<char> {
    seq!['{'] + join_entries(es) + seq!['}', '\n']
}

/// The view of an optional borrowed string.
pub open spec fn opt_str_view(s: Option<&str>) -> Option<Seq<char>> {
    match s {
        Option::Some(t) => Option::Some(t@),
        Option::None => Option::None,
    }
}

pub proof fn lemma_join_entries_push(es: Seq<Seq<char>>, e: Seq<char>)
    ensures
        join_entries(es.push(e)) == if es.len() == 0 {
            e
        } else {
            join_entries(es) + seq![','] + e
        },
    decreases es.len(),
{
    reveal_with_fuel(join_entries, 3);
    if es.len() == 0 {
        assert(es.push(e)[0] == e);
        assert(join_entries(es.push(e)) == e);
    } else if es.len() == 1 {
        assert(es.push(e).drop_first() =~= es.drop_first().push(e));
        assert(es.push(e)[0] == es[0]);
        assert(join_entries(es.push(e)) =~= join_entries(es) + seq![','] + e);
    } else {
        assert(es.push(e).drop_first() =~= es.drop_first().push(e));
        lemma_join_entries_push(es.drop_first(), e);
        assert(es.push(e)[0] == es[0]);
        assert(join_entries(es.push(e)) =~= join_entries(es) + seq![','] + e);
    }
}

pub proof fn lemma_scope_field_entries_push(
    ss: Seq<(Seq<char>, Option<Seq<char>>)>,
    s: (Seq<char>, Option<Seq<char>>),
)
    ensures
        scope_field_entries(ss.push(s)) == scope_field_entries(ss) + scope_one_entries(s.1),
    decreases ss.len(),
{
    reveal_with_fuel(scope_field_entries, 2);
    if ss.len() == 0 {
        assert(ss.push(s)[0] == s);
        assert(ss.push(s).drop_first() =~= Seq::<(Seq<char>, Option<Seq<char>>)>::empty());
        assert(scope_field_entries(ss.push(s)) =~= scope_field_entries(ss) + scope_one_entries(s.1));
    } else {
        assert(ss.push(s).drop_first() =~= ss.drop_first().push(s));
        lemma_scope_field_entries_push(ss.drop_first(), s);
        assert(ss.push(s)[0] == ss[0]);
        assert(scope_field_entries(ss.push(s)) =~= scope_field_entries(ss) + scope_one_entries(s.1));
    }
}

/// With no active scope the line's entries are exactly the enabled head
/// entries followed by the event's own fields, in the fixed order: no span
/// entry and no scope-derived entries appear.
pub proof fn lemma_zero_scope_line(
    ts: Option<Seq<char>>,
    level: Seq<char>,
    target: Option<Seq<char>>,
    fields: Seq<Field>,
)
    ensures
        line_entries(ts, level, target, fields, Seq::empty()) == head_entries(ts, level, target)
            + event_entries(fields),
{
    assert(line_entries(ts, level, target, fields, Seq::empty()) =~= head_entries(
        ts,
        level,
        target,
    ) + event_entries(fields));
}

/// Every rendered line opens with the brace, and closes with the brace
/// followed by exactly one line terminator.
pub proof fn lemma_line_shape(es: Seq<Seq<char>>)
    ensures
        line_text(es).len() >= 3,
        line_text(es)[0] == '{',
        line_text(es)[line_text(es).len() - 2] == '}',
        line_text(es)[line_text(es).len() - 1] == '\n',
{
}

/// Omitting the timestamp removes exactly the leading timestamp entry: every
/// remaining entry, and their relative order, is unchanged.
pub proof fn lemma_timestamp_omitted(
    ts: Seq<char>,
    level: Seq<char>,
    target: Option<Seq<char>>,
    fields: Seq<Field>,
    scopes: Seq<(Seq<char>, Option<Seq<char>>)>,
)
    ensures
        line_entries(Option::None, level, target, fields, scopes) == line_entries(
            Option::Some(ts),
            level,
            target,
            fields,
            scopes,
        ).drop_first(),
{
    assert(line_entries(Option::None, level, target, fields, scopes) =~= line_entries(
        Option::Some(ts),
        level,
        target,
        fields,
        scopes,
    ).drop_first());
}

/// Omitting the target removes exactly the target entry — the one after the
/// level entry — and leaves every remaining entry, and their relative order,
/// unchanged.
pub proof fn lemma_target_omitted(
    ts: Option<Seq<char>>,
    level: Seq<char>,
    tgt: Seq<char>,
    fields: Seq<Field>,
    scopes: Seq<(Seq<char>, Option<Seq<char>>)>,
)
    ensures
        ts is Some ==> line_entries(ts, level, Option::None, fields, scopes) == line_entries(
            ts,
            level,
            Option::Some(tgt),
            fields,
            scopes,
        ).remove(2),
        ts is None ==> line_entries(ts, level, Option::None, fields, scopes) == line_entries(
            ts,
            level,
            Option::Some(tgt),
            fields,
            scopes,
        ).remove(1),
{
    match ts {
        Option::Some(_) => {
            assert(line_entries(ts, level, Option::None, fields, scopes) =~= line_entries(
                ts,
                level,
                Option::Some(tgt),
                fields,
                scopes,
            ).remove(2));
        },
        Option::None => {
            assert(line_entries(ts, level, Option::None, fields, scopes) =~= line_entries(
                ts,
                level,
                Option::Some(tgt),
                fields,
                scopes,
            ).remove(1));
        },
    }
}

/// With at least one active scope the line carries exactly one span entry,
/// naming the innermost scope, between the event's fields and the
/// scope-derived entries; ancestors contribute no span entry of their own,
/// however long the chain.
pub proof fn lemma_span_names_innermost(
    ts: Option<Seq<char>>,
    level: Seq<char>,
    target: Option<Seq<char>>,
    fields: Seq<Field>,
    scopes: Seq<(Seq<char>, Option<Seq<char>>)>,
)
    requires
        scopes.len() >= 1,
    ensures
        line_entries(ts, level, target, fields, scopes) == head_entries(ts, level, target)
            + event_entries(fields) + seq![entry_text("span"@, json_quote(scopes[0].0))]
            + scope_field_entries(scopes),
{
    assert(span_entries(scopes) =~= seq![entry_text("span"@, json_quote(scopes[0].0))]);
}

/// The scope-derived entries of a chain are the concatenation, innermost
/// first, of what each scope's recorded text parses to: scopes contribute
/// independently of one another.
pub proof fn lemma_scope_fields_concat(
    a: Seq<(Seq<char>, Option<Seq<char>>)>,
    b: Seq<(Seq<char>, Option<Seq<char>>)>,
)
    ensures
        scope_field_entries(a + b) == scope_field_entries(a) + scope_field_entries(b),
    decreases a.len(),
{
    if a.len() == 0 {
        assert(a + b =~= b);
        assert(scope_field_entries(a) =~= Seq::<Seq<char>>::empty());
        assert(scope_field_entries(a + b) =~= scope_field_entries(a) + scope_field_entries(b));
    } else {
        assert((a + b).drop_first() =~= a.drop_first() + b);
        assert((a + b)[0] == a[0]);
        assert((a + b).len() > 0);
        lemma_scope_fields_concat(a.drop_first(), b);
        assert(scope_field_entries(a + b) =~= scope_field_entries(a) + scope_field_entries(b));
    }
}

/// A scope whose recorded text is absent or does not parse as a JSON object
/// contributes no entries, and leaves the entries of every other scope, and
/// their order, unchanged.
pub proof fn lemma_malformed_scope_skipped(
    a: Seq<(Seq<char>, Option<Seq<char>>)>,
    s: (Seq<char>, Option<Seq<char>>),
    b: Seq<(Seq<char>, Option<Seq<char>>)>,
)
    requires
        match s.1 {
            Option::None => true,
            Option::Some(blob) => parsed_object_entries(blob) is None,
        },
    ensures
        scope_field_entries(a + seq![s] + b) == scope_field_entries(a) + scope_field_entries(b),
{
    assert(a + seq![s] + b =~= a + (seq![s] + b));
    lemma_scope_fields_concat(a, seq![s] + b);
    assert((seq![s] + b).drop_first() =~= b);
    assert((seq![s] + b)[0] == s);
    assert(scope_one_entries(s.1) =~= Seq::<Seq<char>>::empty());
    assert(scope_field_entries(seq![s] + b) =~= scope_field_entries(b));
}

/// Render one event, with the timestamp and target already resolved against
/// the configuration, as a single flat JSON object on one line: the enabled
/// head entries, the event's own fields, the innermost scope's name under
/// `span`, then every scope's recorded fields, innermost first, and exactly
/// one line terminator.
#[verifier::rlimit(60)]
pub fn render_line(
    timestamp: Option<&str>,
    level: &str,
    target: Option<&str>,
    event_fields: &Vec<Field>,
    scopes: &Vec<Scope>,
) -> (line: String)
    ensures
        line@ == line_text(line_entries(
            opt_str_view(timestamp),
            level@,
            opt_str_view(target),
            event_fields@,
            scopes_view(scopes@),
        )),
{
    let mut out: Vec<char> = Vec::new();
    let ghost mut es: Seq<Seq<char>> = Seq::empty();
    out.push('{');

    let mut first: bool = true;
    match timestamp {
        Option::Some(t) => {
            push_key(&mut out, "timestamp");
            push_quoted(&mut out, t);
            first = false;
            proof {
                lemma_join_entries_push(es, entry_text("timestamp"@, json_quote(t@)));
                es = es.push(entry_text("timestamp"@, json_quote(t@)));
                assert(out@ =~= seq!['{'] + join_entries(es));
            }
        },
        Option::None => {},
    }

    if !first {
        out.push(',');
    }
    push_key(&mut out, "level");
    push_quoted(&mut out, level);
    proof {
        lemma_join_entries_push(es, entry_text("level"@, json_quote(level@)));
        es = es.push(entry_text("level"@, json_quote(level@)));
        assert(out@ =~= seq!['{'] + join_entries(es));
    }

    match target {
        Option::Some(t) => {
            out.push(',');
            push_key(&mut out, "target");
            push_quoted(&mut out, t);
            proof {
                lemma_join_entries_push(es, entry_text("target"@, json_quote(t@)));
                es = es.push(entry_text("target"@, json_quote(t@)));
                assert(out@ =~= seq!['{'] + join_entries(es));
            }
        },
        Option::None => {},
    }
    proof {
        assert(es =~= head_entries(opt_str_view(timestamp), level@, opt_str_view(target)));
    }

    let ghost head = es;
    let mut i: usize = 0;
    while i < event_fields.len()
        invariant
            i <= event_fields@.len(),
            out@ == seq!['{'] + join_entries(es),
            es == head + event_entries(event_fields@.take(i as int)),
            head.len() >= 1,
        decreases event_fields@.len() - i,
    {
        out.push(',');
        push_field(&mut out, &event_fields[i]);
        proof {
            let f = event_fields@[i as int];
            assert(es.len() >= 1);
            lemma_join_entries_push(es, field_entry(f));
            es = es.push(field_entry(f));
            assert(event_fields@.take(i as int + 1) =~= event_fields@.take(i as int).push(f));
            assert(event_entries(event_fields@.take(i as int + 1)) =~= event_entries(
                event_fields@.take(i as int),
            ).push(field_entry(f)));
            assert(es =~= head + event_entries(event_fields@.take(i as int + 1)));
            assert(out@ =~= seq!['{'] + join_entries(es));
        }
        i = i + 1;
    }
    proof {
        assert(event_fields@.take(event_fields@.len() as int) =~= event_fields@);
        assert(es =~= head + event_entries(event_fields@));
    }

    if scopes.len() > 0 {
        out.push(',');
        push_key(&mut out, "span");
        push_quoted(&mut out, scopes[0].name.as_str());
        proof {
            let e = entry_text("span"@, json_quote(scopes@[0].name@));
            assert(es.len() >= 1);
            lemma_join_entries_push(es, e);
            es = es.push(e);
            assert(scopes_view(scopes@)[0] == scope_view(scopes@[0]));
            assert(span_entries(scopes_view(scopes@)) =~= seq![e]);
            assert(out@ =~= seq!['{'] + join_entries(es));
        }
    }
    proof {
        assert(es =~= head + event_entries(event_fields@) + span_entries(scopes_view(scopes@)));
    }

    let ghost base = es;
    let mut j: usize = 0;
    while j < scopes.len()
        invariant
            j <= scopes@.len(),
            out@ == seq!['{'] + join_entries(es),
            es == base + scope_field_entries(scopes_view(scopes@).take(j as int)),
            base.len() >= 1,
        decreases scopes@.len() - j,
    {
        let ghost es_before = es;
        match &scopes[j].fields {
            Option::Some(blob) => {
                match parse_object_entries(blob.as_str()) {
                    Option::Some(pairs) => {
                        let ghost pe = scope_one_entries(Option::Some(blob@));
                        proof {
                            assert(parsed_object_entries(blob@) == Option::Some(pairs.deep_view()));
                            assert(pe =~= pairs.deep_view().map_values(
                                |p: (Seq<char>, Seq<char>)| entry_text(p.0, p.1),
                            ));
                            assert(pe.len() == pairs@.len());
                        }
                        let mut k: usize = 0;
                        while k < pairs.len()
                            invariant
                                k <= pairs@.len(),
                                pe.len() == pairs@.len(),
                                forall|m: int| 0 <= m < pairs@.len() ==> pe[m] == entry_text(
                                    pairs@[m].0@,
                                    pairs@[m].1@,
                                ),
                                out@ == seq!['{'] + join_entries(es),
                                es == es_before + pe.take(k as int),
                                es.len() >= 1,
                            decreases pairs@.len() - k,
                        {
                            out.push(',');
                            push_key(&mut out, pairs[k].0.as_str());
                            push_str_chars(&mut out, pairs[k].1.as_str());
                            proof {
                                let e = pe[k as int];
                                lemma_join_entries_push(es, e);
                                es = es.push(e);
                                assert(pe.take(k as int + 1) =~= pe.take(k as int).push(e));
                                assert(es =~= es_before + pe.take(k as int + 1));
                                assert(out@ =~= seq!['{'] + join_entries(es));
                            }
                            k = k + 1;
                        }
                        proof {
                            assert(pe.take(pe.len() as int) =~= pe);
                            assert(es =~= es_before + pe);
                        }
                    },
                    Option::None => {
                        proof {
                            assert(parsed_object_entries(blob@) == Option::None::<
                                Seq<(Seq<char>, Seq<char>)>,
                            >);
                            assert(es =~= es_before + scope_one_entries(Option::Some(blob@)));
                        }
                    },
                }
                proof {
                    assert(scopes_view(scopes@)[j as int].1 == Option::Some(blob@));
                }
            },
            Option::None => {
                proof {
                    assert(scopes_view(scopes@)[j as int].1 == Option::None::<Seq<char>>);
                    assert(es =~= es_before + scope_one_entries(Option::None));
                }
            },
        }
        proof {
            lemma_scope_field_entries_push(
                scopes_view(scopes@).take(j as int),
                scopes_view(scopes@)[j as int],
            );
            assert(scopes_view(scopes@).take(j as int + 1) =~= scopes_view(scopes@).take(
                j as int,
            ).push(scopes_view(scopes@)[j as int]));
            assert(es =~= base + scope_field_entries(scopes_view(scopes@).take(j as int + 1)));
        }
        j = j + 1;
    }
    proof {
        assert(scopes_view(scopes@).take(scopes@.len() as int) =~= scopes_view(scopes@));
        assert(es =~= line_entries(
            opt_str_view(timestamp),
            level@,
            opt_str_view(target),
            event_fields@,
            scopes_view(scopes@),
        ));
    }

    out.push('}');
    out.push('\n');
    let line = chars_to_string(out);
    proof {
        assert(line@ =~= line_text(es));
    }
    line
}

} // verus!
