//! Rendering: serializing a generic `Value` tree into indented text.
//!
//! Strings render verbatim between double quotes; arrays and objects render
//! one element per line, indented two spaces per nesting level, with a
//! trailing comma after every element but the last.

use vstd::prelude::*;
use vstd::string::{StrSliceExecFns, StringExecFns};

use crate::value::{entry_models, value_model, value_models, Value, ValueModel};

verus! {

/// The indentation level one deeper, saturating at the machine limit.
pub open spec fn next_indent(ind: nat) -> nat {
    if ind + 1 <= usize::MAX {
        ind + 1
    } else {
        ind
    }
}

/// Two spaces for every indentation level.
pub open spec fn spaces(n: nat) -> Seq<char>
    decreases n,
{
    if n == 0 {
        Seq::<char>::empty()
    } else {
        spaces((n - 1) as nat) + seq![' ', ' ']
    }
}

/// The text a value renders to at the given indentation level.
pub open spec fn spec_render(ind: nat, v: ValueModel) -> Seq<char>
    decreases v, 0int,
{
    match v {
        ValueModel::Null => "null"@,
        ValueModel::Str(s) => seq!['"'] + s + seq!['"'],
        ValueModel::Text(s) => seq!['"'] + s + seq!['"'],
        ValueModel::Array(items) => if items.len() == 0 {
            "[]"@
        } else {
            seq!['[', '\n'] + spec_render_list(next_indent(ind), items, 0) + spaces(ind)
                + seq![']']
        },
        ValueModel::Object(entries) => if entries.len() == 0 {
            "{}"@
        } else {
            seq!['{', '\n'] + spec_render_entries(next_indent(ind), entries, 0) + spaces(ind)
                + seq!['}']
        },
    }
}

/// The element lines of an array from position `from` on: each element
/// indented on its own line, all but the last followed by a comma.
pub open spec fn spec_render_list(ind: nat, items: Seq<ValueModel>, from: int) -> Seq<char>
    decreases items, items.len() - from,
{
    if from < 0 || from >= items.len() {
        Seq::<char>::empty()
    } else {
        spaces(ind) + spec_render(ind, items[from]) + (if from == items.len() - 1 {
            seq!['\n']
        } else {
            seq![',', '\n']
        }) + spec_render_list(ind, items, from + 1)
    }
}

/// The entry lines of an object from position `from` on: each quoted key,
/// a colon, the rendered value, all but the last followed by a comma.
pub open spec fn spec_render_entries(
    ind: nat,
    entries: Seq<(Seq<char>, ValueModel)>,
    from: int,
) -> Seq<char>
    decreases entries, entries.len() - from,
{
    if from < 0 || from >= entries.len() {
        Seq::<char>::empty()
    } else {
        spaces(ind) + seq!['"'] + entries[from].0 + seq!['"', ':', ' '] + spec_render(
            ind,
            entries[from].1,
        ) + (if from == entries.len() - 1 {
            seq!['\n']
        } else {
            seq![',', '\n']
        }) + spec_render_entries(ind, entries, from + 1)
    }
}

/// Appends two spaces per indentation level.
#[verifier::loop_isolation(false)]
fn push_spaces(out: &mut String, n: usize)
    ensures
        final(out)@ == old(out)@ + spaces(n as nat),
{
    let mut k: usize = 0;
    proof {
        assert(old(out)@ + spaces(0) =~= old(out)@);
    }
    while k < n
        invariant
            k <= n,
            out@ == old(out)@ + spaces(k as nat),
        decreases n - k,
    {
        out.append("  ");
        proof {
            reveal_strlit("  ");
            assert(("  ")@ =~= seq![' ', ' ']);
            assert(out@ =~= old(out)@ + spaces((k + 1) as nat));
        }
        k = k + 1;
    }
}

/// Serializes a value into indented text.
#[verifier::loop_isolation(false)]
#[verifier::rlimit(100)]
pub fn pretty_print_value(indent: usize, value: &Value) -> (res: String)
    ensures
        res@ == spec_render(indent as nat, value@),
    decreases *value, 0int,
{
    match value {
        Value::Null => String::from_str("null"),
        Value::Str(s) => {
            let mut out = String::from_str("\"");
            out.append(s);
            out.append("\"");
            proof {
                reveal_strlit("\"");
                assert(("\"")@ =~= seq!['"']);
                assert(out@ =~= seq!['"'] + s@ + seq!['"']);
            }
            out
        },
        Value::Text(s) => {
            let mut out = String::from_str("\"");
            out.append(s.as_str());
            out.append("\"");
            proof {
                reveal_strlit("\"");
                assert(("\"")@ =~= seq!['"']);
                assert(out@ =~= seq!['"'] + s@ + seq!['"']);
            }
            out
        },
        Value::Array(items) => {
            let ghost models = value@->Array_0;
            proof {
                assert(value_models(items@) =~= models);
            }
            if items.len() == 0 {
                String::from_str("[]")
            } else {
                let next = indent.saturating_add(1);
                let mut out = String::from_str("[\n");
                proof {
                    reveal_strlit("[\n");
                    assert(("[\n")@ =~= seq!['[', '\n']);
                    assert(spec_render_list(next as nat, models, items@.len() as int)
                        =~= Seq::<char>::empty());
                    assert(out@ + spec_render_list(next as nat, models, 0) =~= seq!['[', '\n']
                        + spec_render_list(next as nat, models, 0));
                }
                let mut i: usize = 0;
                while i < items.len()
                    invariant
                        i <= items.len(),
                        out@ + spec_render_list(next as nat, models, i as int) == seq!['[', '\n']
                            + spec_render_list(next as nat, models, 0),
                    decreases items.len() - i,
                {
                    let ghost before = out@;
                    push_spaces(&mut out, next);
                    let rendered = pretty_print_value(next, &items[i]);
                    out.append(rendered.as_str());
                    if i + 1 == items.len() {
                        out.append("\n");
                        proof {
                            reveal_strlit("\n");
                            assert(("\n")@ =~= seq!['\n']);
                        }
                    } else {
                        out.append(",\n");
                        proof {
                            reveal_strlit(",\n");
                            assert((",\n")@ =~= seq![',', '\n']);
                        }
                    }
                    proof {
                        assert(out@ + spec_render_list(next as nat, models, i + 1) =~= before
                            + spec_render_list(next as nat, models, i as int));
                    }
                    i = i + 1;
                }
                push_spaces(&mut out, indent);
                out.append("]");
                proof {
                    reveal_strlit("]");
                    assert(("]")@ =~= seq![']']);
                    assert(out@ =~= spec_render(indent as nat, value@));
                }
                out
            }
        },
        Value::Object(entries) => {
            let ghost models = value@->Object_0;
            proof {
                assert(entry_models(entries@) =~= models);
            }
            if entries.len() == 0 {
                String::from_str("{}")
            } else {
                let next = indent.saturating_add(1);
                let mut out = String::from_str("{\n");
                proof {
                    reveal_strlit("{\n");
                    assert(("{\n")@ =~= seq!['{', '\n']);
                    assert(spec_render_entries(next as nat, models, entries@.len() as int)
                        =~= Seq::<char>::empty());
                    assert(out@ + spec_render_entries(next as nat, models, 0) =~= seq!['{', '\n']
                        + spec_render_entries(next as nat, models, 0));
                }
                let mut i: usize = 0;
                while i < entries.len()
                    invariant
                        i <= entries.len(),
                        out@ + spec_render_entries(next as nat, models, i as int) == seq!['{', '\n']
                            + spec_render_entries(next as nat, models, 0),
                    decreases entries.len() - i,
                {
                    let ghost before = out@;
                    push_spaces(&mut out, next);
                    out.append("\"");
                    out.append(entries[i].0.as_str());
                    out.append("\": ");
                    let rendered = pretty_print_value(next, &entries[i].1);
                    out.append(rendered.as_str());
                    if i + 1 == entries.len() {
                        out.append("\n");
                        proof {
                            reveal_strlit("\n");
                            assert(("\n")@ =~= seq!['\n']);
                        }
                    } else {
                        out.append(",\n");
                        proof {
                            reveal_strlit(",\n");
                            assert((",\n")@ =~= seq![',', '\n']);
                        }
                    }
                    proof {
                        reveal_strlit("\"");
                        reveal_strlit("\": ");
                        assert(("\"")@ =~= seq!['"']);
                        assert(("\": ")@ =~= seq!['"', ':', ' ']);
                        assert(out@ + spec_render_entries(next as nat, models, i + 1) =~= before
                            + spec_render_entries(next as nat, models, i as int));
                    }
                    i = i + 1;
                }
                push_spaces(&mut out, indent);
                out.append("}");
                proof {
                    reveal_strlit("}");
                    assert(("}")@ =~= seq!['}']);
                    assert(out@ =~= spec_render(indent as nat, value@));
                }
                out
            }
        },
    }
}

} // verus!
