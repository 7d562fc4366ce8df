//! Items grouped into one file per business domain: each item carries its
//! domain and its text, a domain file holds the texts of its items in
//! order, and the domains come in ascending order of their names.

use vstd::prelude::*;
use crate::codegen::functions::SORTED_DOMAINS;
use crate::codegen::{files_view, ModuleSource, SourceFile, SourceFileView};
use crate::domain::{classify, spec_classify};
use crate::rustifier::{snake_case, snake_case_exec};
use crate::text::str_eq;

verus! {

/// The business domain of a generated item: that of its snake-cased name.
pub open spec fn item_domain(name: Seq<char>) -> Seq<char> {
    spec_classify(snake_case(name))
}

/// Computes the business domain of a generated item.
pub fn item_domain_exec(name: &str) -> (r: &'static str)
    ensures
        r@ == item_domain(name@),
{
    let snake = snake_case_exec(name);
    classify(snake.as_str())
}

/// Models of items: each a domain and a text.
pub open spec fn items_view(v: Seq<(&'static str, String)>) -> Seq<(Seq<char>, Seq<char>)> {
    v.map_values(|p: (&'static str, String)| (p.0@, p.1@))
}

/// The texts of the items of domain `dom`, one after the other.
pub open spec fn group_text(items: Seq<(Seq<char>, Seq<char>)>, dom: Seq<char>) -> Seq<char>
    decreases items.len(),
{
    if items.len() == 0 {
        Seq::empty()
    } else {
        group_text(items.drop_last(), dom) + if items.last().0 == dom {
            items.last().1
        } else {
            Seq::empty()
        }
    }
}

/// Some item belongs to domain `dom`.
pub open spec fn group_used(items: Seq<(Seq<char>, Seq<char>)>, dom: Seq<char>) -> bool {
    exists|i: int| 0 <= i < items.len() && (#[trigger] items[i]).0 == dom
}

/// The lines of a `mod.rs` that declare a domain file and re-export its items.
pub open spec fn domain_use_entry(dom: Seq<char>) -> Seq<char> {
    "mod "@ + dom + ";\n"@ + "pub use "@ + dom + "::*;\n"@ + "\n"@
}

/// The `mod.rs` entries for the first `k` sorted domains that have items.
pub open spec fn grouped_mod_text(items: Seq<(Seq<char>, Seq<char>)>, k: int) -> Seq<char>
    decreases k,
{
    if k <= 0 {
        Seq::empty()
    } else {
        grouped_mod_text(items, k - 1) + if group_used(items, SORTED_DOMAINS@[k - 1]@) {
            domain_use_entry(SORTED_DOMAINS@[k - 1]@)
        } else {
            Seq::empty()
        }
    }
}

/// The domain files for the first `k` sorted domains that have items: each
/// is the header followed by the texts of the domain's items.
pub open spec fn grouped_files(items: Seq<(Seq<char>, Seq<char>)>, header: Seq<char>, k: int) -> Seq<
    SourceFileView,
>
    decreases k,
{
    if k <= 0 {
        Seq::empty()
    } else if group_used(items, SORTED_DOMAINS@[k - 1]@) {
        grouped_files(items, header, k - 1).push(
            SourceFileView {
                name: SORTED_DOMAINS@[k - 1]@,
                content: header + group_text(items, SORTED_DOMAINS@[k - 1]@),
            },
        )
    } else {
        grouped_files(items, header, k - 1)
    }
}

/// The text of the file of domain `dom`, and whether it has any item.
fn group_file(items: &Vec<(&'static str, String)>, header: &str, dom: &str) -> (r: (String, bool))
    ensures
        r.0@ == header@ + group_text(items_view(items@), dom@),
        r.1 == group_used(items_view(items@), dom@),
{
    let ghost iv = items_view(items@);
    let mut out = String::from_str(header);
    let mut used = false;
    let mut i: usize = 0;
    while i < items.len()
        invariant
            i <= items.len(),
            iv == items_view(items@),
            out@ == header@ + group_text(iv.take(i as int), dom@),
            used == group_used(iv.take(i as int), dom@),
        decreases items.len() - i,
    {
        let ghost prev = iv.take(i as int);
        let ghost cur = iv.take(i + 1);
        assert(cur.drop_last() =~= prev);
        assert(cur.last() == iv[i as int]);
        assert(iv[i as int] == (items@[i as int].0@, items@[i as int].1@));
        if str_eq(items[i].0, dom) {
            out.append(items[i].1.as_str());
            used = true;
            assert(cur[i as int].0 == dom@);
        } else {
            proof {
                assert forall|a: int| 0 <= a < cur.len() && (#[trigger] cur[a]).0 == dom@ implies 0 <= a
                    < prev.len() && prev[a].0 == dom@ by {
                    assert(a != i);
                }
                if group_used(prev, dom@) {
                    let a = choose|a: int| 0 <= a < prev.len() && (#[trigger] prev[a]).0 == dom@;
                    assert(cur[a] == prev[a]);
                }
            }
        }
        i += 1;
    }
    assert(iv.take(items.len() as int) =~= iv);
    (out, used)
}

fn push_domain_use_entry(out: &mut String, dom: &str)
    ensures
        final(out)@ == old(out)@ + domain_use_entry(dom@),
{
    out.append("mod ");
    out.append(dom);
    out.append(";\n");
    out.append("pub use ");
    out.append(dom);
    out.append("::*;\n");
    out.append("\n");
    assert(out@ =~= old(out)@ + domain_use_entry(dom@));
}

/// A module whose items are grouped into one file per business domain that
/// has items, in ascending order of the domain names; each file is the
/// header followed by the texts of its items in order, and `mod.rs`
/// declares the files and re-exports their items.
#[verifier::spinoff_prover]
#[verifier::rlimit(25)]
pub fn grouped_module(items: &Vec<(&'static str, String)>, header: &str) -> (r: ModuleSource)
    ensures
        r.mod_rs@ == grouped_mod_text(items_view(items@), SORTED_DOMAINS@.len() as int),
        files_view(r.files@) == grouped_files(items_view(items@), header@, SORTED_DOMAINS@.len() as int),
{
    let ghost iv = items_view(items@);
    let mut mod_rs = String::new();
    let mut files: Vec<SourceFile> = Vec::new();
    let table = SORTED_DOMAINS;
    assert(table@ == SORTED_DOMAINS@);
    let mut k: usize = 0;
    while k < table.len()
        invariant
            k <= table.len(),
            table@ == SORTED_DOMAINS@,
            iv == items_view(items@),
            mod_rs@ == grouped_mod_text(iv, k as int),
            files_view(files@) == grouped_files(iv, header@, k as int),
        decreases table.len() - k,
    {
        let dom: &'static str = table[k];
        assert(dom@ == SORTED_DOMAINS@[k as int]@);
        let (content, used) = group_file(items, header, dom);
        let ghost prev_files = grouped_files(iv, header@, k as int);
        assert(grouped_mod_text(iv, k + 1) == grouped_mod_text(iv, k as int) + if used {
            domain_use_entry(dom@)
        } else {
            Seq::empty()
        });
        assert(grouped_files(iv, header@, k + 1) == if used {
            prev_files.push(SourceFileView { name: dom@, content: content@ })
        } else {
            prev_files
        });
        if used {
            push_domain_use_entry(&mut mod_rs, dom);
            let ghost before = files@;
            files.push(SourceFile { name: String::from_str(dom), content });
            assert(files_view(files@) =~= files_view(before).push(files@.last()@));
        }
        k += 1;
    }
    ModuleSource { mod_rs, files }
}

} // verus!
