//! Conveniently read YAML, e.g. for loading configs.

use vstd::prelude::*;
use yaml_rust::scanner::{Scanner, TokenType};
use yaml_rust::{ScanError, Yaml, YamlLoader};

verus! {

/// `Yaml` of the yaml-rust crate: a YAML document. Nothing is said of what
/// is in it.
#[verifier::external_type_specification]
#[verifier::external_body]
pub struct ExYaml(Yaml);

/// `ScanError` of the yaml-rust crate: why a text is not YAML. Nothing is
/// said of what is in it.
#[verifier::external_type_specification]
#[verifier::external_body]
pub struct ExScanError(ScanError);

/// Why a text gives no YAML document.
#[derive(Clone, Copy, Debug, PartialEq, Eq, Structural)]
pub enum YamlError {
    /// The text nests deeper than `MAX_DEPTH` allows.
    TooDeep,
    /// The text holds so many anchors and aliases that the value it stands
    /// for may be deeper than `MAX_DEPTH`, or larger than `MAX_NODES`.
    TooManyAliases,
    /// The text is not YAML.
    Malformed,
    /// The text holds no document.
    Empty,
}

/// What a token of the loader's scanner means for the shape of the value:
/// where a collection begins or ends, where a node is given a name, and
/// where a named node is referred to.
#[derive(Clone, Copy, Debug, PartialEq, Eq, Structural)]
pub enum Mark {
    BlockSequenceStart,
    BlockMappingStart,
    BlockEnd,
    FlowSequenceStart,
    FlowSequenceEnd,
    FlowMappingStart,
    FlowMappingEnd,
    Anchor,
    Alias,
    /// Any other token.
    Other,
}

impl Mark {
    /// Whether a collection begins at the mark.
    pub open spec fn opens(self) -> bool {
        self == Mark::BlockSequenceStart || self == Mark::BlockMappingStart || self
            == Mark::FlowSequenceStart || self == Mark::FlowMappingStart
    }

    /// Whether a collection ends at the mark.
    pub open spec fn closes(self) -> bool {
        self == Mark::BlockEnd || self == Mark::FlowSequenceEnd || self == Mark::FlowMappingEnd
    }
}

/// The deepest that a loaded value may be: the loader and what copies,
/// compares and drops the value descend one call for every level of it.
pub const MAX_DEPTH: usize = 400;

/// The largest that a value which holds copies of named nodes may be,
/// counted in the tokens that would spell it out.
pub const MAX_NODES: usize = 1_048_576;

/// The number of collections that are open behind the marks: each that
/// begins counts, and each that ends takes one away while any is open.
pub open spec fn level(marks: Seq<Mark>) -> nat
    decreases marks.len(),
{
    if marks.len() == 0 {
        0
    } else {
        let before = level(marks.drop_last());
        if marks.last().opens() {
            before + 1
        } else if marks.last().closes() && before > 0 {
            (before - 1) as nat
        } else {
            before
        }
    }
}

/// The most collections that are open at any point of the marks.
pub open spec fn deepest(marks: Seq<Mark>) -> nat
    decreases marks.len(),
{
    if marks.len() == 0 {
        0
    } else if level(marks) > deepest(marks.drop_last()) {
        level(marks)
    } else {
        deepest(marks.drop_last())
    }
}

/// How often `mark` occurs among the marks.
pub open spec fn count(marks: Seq<Mark>, mark: Mark) -> nat
    decreases marks.len(),
{
    if marks.len() == 0 {
        0
    } else if marks.last() == mark {
        count(marks.drop_last(), mark) + 1
    } else {
        count(marks.drop_last(), mark)
    }
}

/// How deep the text itself nests, at most. Beside the collections that
/// the marks open there can be, in each of them, one that no mark opens:
/// a sequence in the column of its key, or a single pair in a flow
/// sequence.
pub open spec fn nesting(marks: Seq<Mark>) -> nat {
    2 * deepest(marks)
}

/// How many copies of named nodes can stand one inside the other, at most:
/// each takes an anchor and an alias of its own.
pub open spec fn links(marks: Seq<Mark>) -> nat {
    if count(marks, Mark::Anchor) < count(marks, Mark::Alias) {
        count(marks, Mark::Anchor)
    } else {
        count(marks, Mark::Alias)
    }
}

/// How deep the value is that the text stands for, at most: as deep as
/// the text nests, and as deep again for every copy inside a copy.
pub open spec fn depth(marks: Seq<Mark>) -> nat {
    (links(marks) + 1) * nesting(marks)
}

/// `base` taken `count` times as a factor.
pub open spec fn power(base: nat, count: nat) -> nat
    decreases count,
{
    if count == 0 {
        1
    } else {
        power(base, (count - 1) as nat) * base
    }
}

/// How many times larger than what the text spells out the value can be,
/// at most. What the text spells out is copied once for every way that leads
/// to it through aliases: a set of aliases, one inside the named node of the
/// other, of which there are no more than `links`. So there are no more
/// ways than sets of aliases, and no more than choices of one alias or none
/// for each link.
pub open spec fn growth(marks: Seq<Mark>) -> nat {
    let by_links = power(count(marks, Mark::Alias) + 1, links(marks));
    let by_aliases = power(2, count(marks, Mark::Alias));
    if by_links < by_aliases {
        by_links
    } else {
        by_aliases
    }
}

/// How large the value that the text stands for can be, at most, counted
/// in tokens: the tokens of the text, as many times as aliases can make of
/// them.
pub open spec fn weight(marks: Seq<Mark>) -> nat {
    marks.len() * growth(marks)
}

/// Why a text with these marks is not loaded, if it is not: because it
/// nests too deep by itself, or because its anchors and aliases may make
/// the value too deep or too large.
pub open spec fn refusal(marks: Seq<Mark>) -> Option<YamlError> {
    if nesting(marks) > MAX_DEPTH {
        Some(YamlError::TooDeep)
    } else if depth(marks) > MAX_DEPTH || (links(marks) > 0 && weight(marks) > MAX_NODES) {
        Some(YamlError::TooManyAliases)
    } else {
        None
    }
}

/// A factor that is taken more often makes no less, where it is no less
/// than one.
pub proof fn lemma_power_grows(base: nat, few: nat, many: nat)
    requires
        base >= 1,
        few <= many,
    ensures
        1 <= power(base, few) <= power(base, many),
    decreases many,
{
    if many > 0 {
        let fewer = if few == many {
            (few - 1) as nat
        } else {
            few
        };
        lemma_power_grows(base, fewer, (many - 1) as nat);
        assert(power(base, (many - 1) as nat) * base >= power(base, (many - 1) as nat))
            by (nonlinear_arith)
            requires
                base >= 1,
        ;
    }
}

/// Marks among which there are aliases to copy, and anchors to copy from,
/// weigh more than there are aliases.
pub proof fn lemma_weight_of_aliases(marks: Seq<Mark>)
    requires
        links(marks) >= 1,
    ensures
        weight(marks) > count(marks, Mark::Alias),
{
    let aliases = count(marks, Mark::Alias);
    lemma_power_grows(aliases + 1, 1, links(marks));
    assert(power(aliases + 1, 1) == aliases + 1) by {
        reveal_with_fuel(power, 2);
    }
    lemma_two_to_the(aliases);
    lemma_count_within(marks, Mark::Alias);
    assert(marks.len() * growth(marks) >= growth(marks)) by (nonlinear_arith)
        requires
            marks.len() >= 1,
    ;
}

/// Two, taken any number of times as a factor, makes more than that
/// number.
pub proof fn lemma_two_to_the(count: nat)
    ensures
        power(2, count) > count,
    decreases count,
{
    if count > 0 {
        lemma_two_to_the((count - 1) as nat);
    }
}

/// No mark occurs more often than there are marks.
pub proof fn lemma_count_within(marks: Seq<Mark>, mark: Mark)
    ensures
        count(marks, mark) <= marks.len(),
    decreases marks.len(),
{
    if marks.len() > 0 {
        lemma_count_within(marks.drop_last(), mark);
    }
}

/// Whether `start`, taken `count` times by the factor `base`, comes to more
/// than `MAX_NODES`.
pub fn outgrows(start: usize, base: usize, count: usize) -> (over: bool)
    requires
        base >= 2,
    ensures
        over == (start * power(base as nat, count as nat) > MAX_NODES),
{
    if start == 0 {
        assert(start * power(base as nat, count as nat) == 0) by (nonlinear_arith)
            requires
                start == 0,
        ;
        return false;
    }
    if start > MAX_NODES {
        proof {
            lemma_power_grows(base as nat, 0, count as nat);
            assert(start * power(base as nat, count as nat) >= start) by (nonlinear_arith)
                requires
                    power(base as nat, count as nat) >= 1,
            ;
        }
        return true;
    }
    let mut grown: usize = start;
    let mut taken: usize = 0;
    assert(start * power(base as nat, 0) == start) by (nonlinear_arith)
        requires
            power(base as nat, 0) == 1,
    ;
    while taken < count
        invariant
            taken <= count,
            base >= 2,
            start >= 1,
            grown == start * power(base as nat, taken as nat),
            grown <= MAX_NODES,
        decreases count - taken,
    {
        let ghost before = power(base as nat, taken as nat);
        let ghost after = power(base as nat, (taken + 1) as nat);
        assert(start * after == grown * base) by (nonlinear_arith)
            requires
                after == before * base,
                grown == start * before,
        ;
        if grown > MAX_NODES / base {
            proof {
                lemma_power_grows(base as nat, (taken + 1) as nat, count as nat);
                let all = power(base as nat, count as nat);
                assert(grown * base > MAX_NODES) by (nonlinear_arith)
                    requires
                        grown > MAX_NODES / base,
                        base >= 2,
                ;
                assert(start * all >= start * after) by (nonlinear_arith)
                    requires
                        all >= after,
                ;
            }
            return true;
        }
        assert(grown * base <= MAX_NODES) by (nonlinear_arith)
            requires
                grown <= MAX_NODES / base,
                base >= 2,
        ;
        grown = grown * base;
        taken = taken + 1;
    }
    false
}

/// The level, the deepest level, the anchors and the aliases of the marks.
pub fn survey(marks: &Vec<Mark>) -> (found: (usize, usize, usize, usize))
    ensures
        found.0 == level(marks@),
        found.1 == deepest(marks@),
        found.2 == count(marks@, Mark::Anchor),
        found.3 == count(marks@, Mark::Alias),
{
    let mut open: usize = 0;
    let mut most: usize = 0;
    let mut anchors: usize = 0;
    let mut aliases: usize = 0;
    assert(marks@.take(0) =~= Seq::<Mark>::empty());
    for i in 0..marks.len()
        invariant
            open == level(marks@.take(i as int)),
            most == deepest(marks@.take(i as int)),
            anchors == count(marks@.take(i as int), Mark::Anchor),
            aliases == count(marks@.take(i as int), Mark::Alias),
            open <= i,
            most <= i,
            anchors <= i,
            aliases <= i,
    {
        proof {
            let next = marks@.take(i + 1);
            assert(next.drop_last() =~= marks@.take(i as int));
            assert(next.last() == marks@[i as int]);
        }
        match marks[i] {
            Mark::BlockSequenceStart
            | Mark::BlockMappingStart
            | Mark::FlowSequenceStart
            | Mark::FlowMappingStart => {
                open = open + 1;
            },
            Mark::BlockEnd | Mark::FlowSequenceEnd | Mark::FlowMappingEnd => {
                if open > 0 {
                    open = open - 1;
                }
            },
            Mark::Anchor => {
                anchors = anchors + 1;
            },
            Mark::Alias => {
                aliases = aliases + 1;
            },
            Mark::Other => {},
        }
        if open > most {
            most = open;
        }
    }
    assert(marks@.take(marks@.len() as int) =~= marks@);
    (open, most, anchors, aliases)
}

/// Whether a text with these marks is loaded, and why not if it is not:
/// because it nests too deep by itself, or because its anchors and aliases
/// may make the value too deep or too large.
pub fn verdict(marks: &Vec<Mark>) -> (refused: Option<YamlError>)
    ensures
        refused == refusal(marks@),
{
    let found = survey(marks);
    let most: usize = found.1;
    let aliases: usize = found.3;
    let chain: usize = if found.2 < aliases {
        found.2
    } else {
        aliases
    };
    if most > MAX_DEPTH / 2 {
        return Some(YamlError::TooDeep);
    }
    let within: usize = 2 * most;
    if chain == 0 {
        assert(depth(marks@) == nesting(marks@)) by (nonlinear_arith)
            requires
                depth(marks@) == (links(marks@) + 1) * nesting(marks@),
                links(marks@) == 0,
        ;
        return None;
    }
    if within > 0 {
        if chain >= MAX_DEPTH {
            assert(depth(marks@) > MAX_DEPTH) by (nonlinear_arith)
                requires
                    depth(marks@) == (links(marks@) + 1) * nesting(marks@),
                    nesting(marks@) >= 1,
                    links(marks@) >= MAX_DEPTH,
            ;
            return Some(YamlError::TooManyAliases);
        }
        assert((chain + 1) * within <= (MAX_DEPTH + 1) * MAX_DEPTH) by (nonlinear_arith)
            requires
                chain < MAX_DEPTH,
                within <= MAX_DEPTH,
        ;
        if (chain + 1) * within > MAX_DEPTH {
            return Some(YamlError::TooManyAliases);
        }
    } else {
        assert(depth(marks@) == 0) by (nonlinear_arith)
            requires
                depth(marks@) == (links(marks@) + 1) * nesting(marks@),
                nesting(marks@) == 0,
        ;
    }
    if aliases >= MAX_NODES {
        proof {
            lemma_weight_of_aliases(marks@);
        }
        return Some(YamlError::TooManyAliases);
    }
    let by_links = outgrows(marks.len(), aliases + 1, chain);
    let by_aliases = outgrows(marks.len(), 2, aliases);
    proof {
        let few = power((aliases + 1) as nat, chain as nat);
        let many = power(2, aliases as nat);
        let size = marks@.len();
        if few < many {
            assert(size * few <= size * many) by (nonlinear_arith)
                requires
                    few < many,
            ;
        } else {
            assert(size * many <= size * few) by (nonlinear_arith)
                requires
                    many <= few,
            ;
        }
    }
    if by_links && by_aliases {
        Some(YamlError::TooManyAliases)
    } else {
        None
    }
}

/// The marks of the tokens that the scanner of the yaml-rust crate finds
/// in a text, in their order, as far as it gets.
pub uninterp spec fn marks_of(text: Seq<char>) -> Seq<Mark>;

/// `Scanner::new` of the yaml-rust crate on the characters of a text, and
/// the tokens that it hands out as an iterator, each as its mark. The
/// scanner goes by the text alone. It stops at the end of the stream, or
/// where it finds an error, and it works through the text in loops: it does
/// not descend.
#[verifier::external_body]
pub(crate) fn scan_marks(text: &str) -> (marks: Vec<Mark>)
    ensures
        marks@ == marks_of(text@),
{
    Scanner::new(text.chars()).map(|token| match token.1 {
        TokenType::BlockSequenceStart => Mark::BlockSequenceStart,
        TokenType::BlockMappingStart => Mark::BlockMappingStart,
        TokenType::BlockEnd => Mark::BlockEnd,
        TokenType::FlowSequenceStart => Mark::FlowSequenceStart,
        TokenType::FlowSequenceEnd => Mark::FlowSequenceEnd,
        TokenType::FlowMappingStart => Mark::FlowMappingStart,
        TokenType::FlowMappingEnd => Mark::FlowMappingEnd,
        TokenType::Anchor(_) => Mark::Anchor,
        TokenType::Alias(_) => Mark::Alias,
        _ => Mark::Other,
    }).collect()
}

/// The number of documents that `YamlLoader::load_from_str` of the
/// yaml-rust crate finds in a text: none where the text is not YAML.
pub uninterp spec fn document_count(text: Seq<char>) -> Option<nat>;

/// `YamlLoader::load_from_str` of the yaml-rust crate: the documents of a
/// YAML text, or the error that the scanner met. The loader goes by the text
/// alone, so whether it fails, and how many documents it finds, is a matter
/// of the text. Nothing is said here of what the documents hold.
///
/// The loader descends: its parser calls itself once for every collection
/// that is open, and a value is copied, compared, hashed and dropped by one
/// call for every level of it. And it copies: an alias stands for a copy of
/// the node that an anchor has named. A text on which it may go deeper than
/// `MAX_DEPTH`, or by which copies may make the value larger than
/// `MAX_NODES` tokens would spell out, is left out, so that the stack of a
/// thread, 2 MiB by default, and the memory have room for it.
///
/// The parser reads the tokens of the same scanner, in the same order. It
/// opens a collection where a token begins one and closes it where a token
/// ends one; beside these it opens a sequence that stands in the column of
/// its key inside a block mapping, and a single pair inside a flow
/// sequence, neither directly inside another of its kind. So it goes no
/// deeper than `nesting`. An alias of a name that no anchor has given is an
/// error, and an alias inside the node that it names stands for nothing:
/// what is copied has ended before the alias is read. So of the copies that
/// stand one inside the other each has an anchor and an alias of its own,
/// of which there are no more than `links`: the value is no deeper than
/// `depth`, and holds what the text spells out no more than `growth` times.
/// Beside the value the loader keeps one copy of every named node.
#[verifier::external_body]
pub(crate) fn load_documents(text: &str) -> (loaded: Result<Vec<Yaml>, ScanError>)
    requires
        refusal(marks_of(text@)) is None,
    ensures
        match loaded {
            Ok(docs) => document_count(text@) == Some(docs@.len()),
            Err(_) => document_count(text@) is None,
        },
{
    YamlLoader::load_from_str(text)
}

/// Picks the first document of what the loader has made of a text.
pub fn first_document(loaded: Result<Vec<Yaml>, ScanError>) -> (first: Result<Yaml, YamlError>)
    ensures
        match loaded {
            Ok(docs) => if docs@.len() > 0 {
                first == Ok::<Yaml, YamlError>(docs@[0])
            } else {
                first == Err::<Yaml, YamlError>(YamlError::Empty)
            },
            Err(_) => first == Err::<Yaml, YamlError>(YamlError::Malformed),
        },
{
    match loaded {
        Ok(docs) => {
            let mut docs = docs;
            if docs.len() > 0 {
                Ok(docs.remove(0))
            } else {
                Err(YamlError::Empty)
            }
        },
        Err(_) => Err(YamlError::Malformed),
    }
}

/// Loads a YAML text, as read from a file: just the first document of it.
/// A text that nests deeper than `MAX_DEPTH` is too deep, and one whose
/// anchors and aliases may make the value deeper than that has too many
/// aliases: neither is loaded. Of the others, a text that is not YAML is
/// malformed, and one without a document is empty.
pub fn load_from_yaml(text: &str) -> (doc: Result<Yaml, YamlError>)
    ensures
        match refusal(marks_of(text@)) {
            Some(error) => doc == Err::<Yaml, YamlError>(error),
            None => match document_count(text@) {
                Some(count) => if count > 0 {
                    doc is Ok
                } else {
                    doc == Err::<Yaml, YamlError>(YamlError::Empty)
                },
                None => doc == Err::<Yaml, YamlError>(YamlError::Malformed),
            },
        },
{
    let marks = scan_marks(text);
    match verdict(&marks) {
        Some(error) => Err(error),
        None => first_document(load_documents(text)),
    }
}

} // verus!
