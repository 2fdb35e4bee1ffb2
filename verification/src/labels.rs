//! The label table: which instruction index each label name marks.

use vstd::prelude::*;
use crate::bindings::{as_map, lemma_empty, lemma_lookup_absent, lemma_lookup_at, lemma_push};
use crate::instruction::{decode_spec, InstructionView};
use crate::text::{line_views, split_line, split_spaces};
use crate::value::VmError;

verus! {

/// Whether the line declares a label: its first token is `$label`.
pub open spec fn declares_label(line: Seq<char>) -> bool {
    split_spaces(line)[0] == "$label"@
}

/// The name that a label declaration gives: its second token, if it has one.
pub open spec fn declared_name(line: Seq<char>) -> Option<Seq<char>> {
    let tokens = split_spaces(line);
    if tokens.len() >= 2 {
        Some(tokens[1])
    } else {
        None
    }
}

/// Every label declaration among the lines has a name.
pub open spec fn labels_complete(lines: Seq<Seq<char>>) -> bool {
    forall|i: int|
        0 <= i < lines.len() && declares_label(#[trigger] lines[i]) ==> declared_name(
            lines[i],
        ) is Some
}

/// The label table of a program: each declared name mapped to the index of
/// its declaration, the last one where a name is declared more than once.
pub open spec fn labels_of(lines: Seq<Seq<char>>) -> Map<Seq<char>, usize>
    decreases lines.len(),
{
    if lines.len() == 0 {
        Map::empty()
    } else {
        let before = labels_of(lines.drop_last());
        let line = lines.last();
        if declares_label(line) && declared_name(line) is Some {
            before.insert(declared_name(line)->0, (lines.len() - 1) as usize)
        } else {
            before
        }
    }
}

/// Whether line `i` declares the label `name`.
pub open spec fn declares(lines: Seq<Seq<char>>, i: int, name: Seq<char>) -> bool {
    0 <= i < lines.len() && declares_label(lines[i]) && declared_name(lines[i]) == Some(name)
}

/// The table knows exactly the declared names, and gives each the index of
/// its last declaration: an index of the program.
pub proof fn lemma_labels_last_wins(lines: Seq<Seq<char>>, name: Seq<char>)
    requires
        lines.len() <= usize::MAX,
    ensures
        labels_of(lines).contains_key(name) <==> exists|i: int| declares(lines, i, name),
        labels_of(lines).contains_key(name) ==> {
            let at = labels_of(lines)[name] as int;
            &&& declares(lines, at, name)
            &&& forall|j: int| at < j < lines.len() ==> !declares(lines, j, name)
        },
    decreases lines.len(),
{
    if lines.len() > 0 {
        let shorter = lines.drop_last();
        let last = lines.len() - 1;
        lemma_labels_last_wins(shorter, name);
        assert forall|i: int| declares(shorter, i, name) implies declares(lines, i, name) by {
            assert(shorter[i] == lines[i]);
        }
        if declares(lines, last, name) {
        } else {
            assert forall|i: int| declares(lines, i, name) implies declares(shorter, i, name) by {
                assert(shorter[i] == lines[i]);
            }
            if labels_of(lines).contains_key(name) {
                let at = labels_of(lines)[name] as int;
                assert(declares(shorter, at, name));
                assert forall|j: int| at < j < lines.len() implies !declares(lines, j, name) by {
                    if j < last {
                        assert(shorter[j] == lines[j]);
                        assert(!declares(shorter, j, name));
                    }
                }
            }
        }
    }
}

/// A line that decodes to a label instruction declares that label, so the
/// table of a program knows every label instruction in it.
pub proof fn lemma_label_instruction_declares(line: Seq<char>, name: Seq<char>)
    requires
        decode_spec(line) == Some(InstructionView::Label(name)),
    ensures
        declares_label(line),
        declared_name(line) == Some(name),
{
}

/// One entry of the table.
pub struct LabelEntry {
    pub name: String,
    pub index: usize,
}

/// A mapping from label names to instruction indices.
pub struct LabelTable {
    entries: Vec<LabelEntry>,
}

impl View for LabelTable {
    type V = Map<Seq<char>, usize>;

    closed spec fn view(&self) -> Map<Seq<char>, usize> {
        as_map(self.pairs())
    }
}

impl LabelTable {
    closed spec fn pairs(&self) -> Seq<(Seq<char>, usize)> {
        self.entries@.map_values(|e: LabelEntry| (e.name@, e.index))
    }

    /// The empty table.
    pub fn new() -> (table: LabelTable)
        ensures
            table@ == Map::<Seq<char>, usize>::empty(),
    {
        let table = LabelTable { entries: Vec::new() };
        proof {
            lemma_empty::<usize>();
            assert(table.pairs() =~= Seq::empty());
        }
        table
    }

    /// Binds `name` to `index`; an earlier binding of the name is replaced.
    pub fn insert(&mut self, name: String, index: usize)
        ensures
            final(self)@ == old(self)@.insert(name@, index),
    {
        proof {
            lemma_push(self.pairs(), name@, index);
            assert(self.pairs().push((name@, index)) =~= self.entries@.push(
                LabelEntry { name, index },
            ).map_values(|e: LabelEntry| (e.name@, e.index)));
        }
        self.entries.push(LabelEntry { name, index });
    }

    /// The index that `name` is bound to.
    pub fn get(&self, name: &String) -> (found: Option<usize>)
        ensures
            found == (if self@.contains_key(name@) {
                Some(self@[name@])
            } else {
                None
            }),
    {
        let mut i: usize = self.entries.len();
        while i > 0
            invariant
                i <= self.entries.len(),
                forall|j: int| i <= j < self.entries.len() ==> self.pairs()[j].0 != name@,
            decreases i,
        {
            i -= 1;
            if self.entries[i].name == *name {
                proof {
                    lemma_lookup_at(self.pairs(), i as int);
                }
                return Some(self.entries[i].index);
            }
        }
        proof {
            lemma_lookup_absent(self.pairs(), name@);
        }
        None
    }
}

/// Scans the program once for label declarations. A declaration without a
/// name makes the program malformed; nothing else is asked of a line here,
/// and no label is required to exist.
pub fn parse_labels(instructions: &Vec<&str>) -> (r: Result<LabelTable, VmError>)
    ensures
        r is Ok <==> labels_complete(line_views(instructions@)),
        r matches Ok(table) ==> table@ == labels_of(line_views(instructions@)),
        r matches Err(e) ==> e == VmError::MalformedProgram,
{
    let ghost lines = line_views(instructions@);
    let mut table = LabelTable::new();
    let mut i: usize = 0;
    assert(lines.take(0) =~= Seq::empty());
    while i < instructions.len()
        invariant
            i <= instructions.len(),
            lines == line_views(instructions@),
            labels_complete(lines.take(i as int)),
            table@ == labels_of(lines.take(i as int)),
        decreases instructions.len() - i,
    {
        let tokens = split_line(instructions[i]);
        let ghost line = lines[i as int];
        proof {
            crate::text::lemma_split_tokens(line);
            assert(lines.take(i + 1).drop_last() =~= lines.take(i as int));
            assert(lines.take(i + 1).last() == line);
        }
        let head = String::from_str("$label");
        if tokens[0] == head {
            if tokens.len() < 2 {
                proof {
                    assert(declares_label(lines[i as int]));
                }
                return Err(VmError::MalformedProgram);
            }
            table.insert(tokens[1].clone(), i);
        }
        proof {
            let upto = lines.take(i + 1);
            assert forall|j: int| 0 <= j < upto.len() && declares_label(
                #[trigger] upto[j],
            ) implies declared_name(upto[j]) is Some by {
                if j < i {
                    assert(upto[j] == lines.take(i as int)[j]);
                }
            }
        }
        i += 1;
    }
    proof {
        assert(lines.take(i as int) =~= lines);
    }
    Ok(table)
}

} // verus!
