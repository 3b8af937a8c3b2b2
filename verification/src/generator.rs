//! The options of the binding generator, and the builder that collects
//! them.

use vstd::prelude::*;
use vstd::string::StringExecFns;

verus! {

/// What a run of the generator is told: where to look for included
/// headers, which types and interface traits to leave out, how to read
/// constants and to spell identities, and what the three root operations
/// are called.
pub struct GeneratorOptions<P, G> {
    /// The directories searched for included headers, in order.
    pub include_paths: Vec<String>,
    /// The names of the types to leave out, each once.
    pub skip_types: Vec<String>,
    /// The names of the interfaces whose trait is left out, each once.
    pub skip_interface_traits: Vec<String>,
    /// Reads the value of a constant from its tokens.
    pub constant_parser: Option<P>,
    /// Spells the identity of the interface of a given name.
    pub iid_generator: Option<G>,
    /// The name of the operation that asks for another interface.
    pub query_interface_fn: Option<String>,
    /// The name of the operation that takes a hold.
    pub add_ref_fn: Option<String>,
    /// The name of the operation that gives a hold back.
    pub release_fn: Option<String>,
}

/// Collects the options of the generator and the source it is to read.
pub struct Generator<P, G> {
    pub options: GeneratorOptions<P, G>,
    pub source: String,
}

/// The texts of a list of strings.
pub open spec fn texts(strings: Seq<String>) -> Seq<Seq<char>> {
    Seq::new(strings.len(), |i: int| strings[i]@)
}

/// The texts of a list of string slices.
pub open spec fn slice_texts(strings: Seq<&str>) -> Seq<Seq<char>> {
    Seq::new(strings.len(), |i: int| strings[i]@)
}

/// A list of names with one more name in it: at the end, unless the list
/// holds it already.
pub open spec fn with_name(names: Seq<Seq<char>>, name: Seq<char>) -> Seq<Seq<char>> {
    if names.contains(name) {
        names
    } else {
        names.push(name)
    }
}

/// A list of names with more names in it, taken in order.
pub open spec fn with_names(names: Seq<Seq<char>>, more: Seq<Seq<char>>) -> Seq<Seq<char>>
    decreases more.len(),
{
    if more.len() == 0 {
        names
    } else {
        with_name(with_names(names, more.drop_last()), more.last())
    }
}

/// Putting names into a list that holds none twice leaves a list that
/// holds none twice.
pub proof fn lemma_with_names_distinct(names: Seq<Seq<char>>, more: Seq<Seq<char>>)
    requires
        names.no_duplicates(),
    ensures
        with_names(names, more).no_duplicates(),
        forall|name: Seq<char>|
            with_names(names, more).contains(name) <==> names.contains(name) || more.contains(name),
    decreases more.len(),
{
    if more.len() > 0 {
        let shorter = more.drop_last();
        lemma_with_names_distinct(names, shorter);
        let before = with_names(names, shorter);
        let after = with_names(names, more);
        assert forall|name: Seq<char>| after.contains(name) <==> names.contains(name)
            || more.contains(name) by {
            if more.contains(name) {
                let k = choose|k: int| 0 <= k < more.len() && more[k] == name;
                if k < more.len() - 1 {
                    assert(shorter[k] == name);
                    assert(shorter.contains(name));
                }
            }
            if shorter.contains(name) {
                let k = choose|k: int| 0 <= k < shorter.len() && shorter[k] == name;
                assert(more[k] == name);
            }
            assert(more[more.len() - 1] == more.last());
            if !before.contains(more.last()) {
                assert(after =~= before.push(more.last()));
                assert(after[after.len() - 1] == more.last());
                if before.contains(name) {
                    let k = choose|k: int| 0 <= k < before.len() && before[k] == name;
                    assert(after[k] == name);
                }
            }
        }
    }
}

/// The text of an optional string.
pub open spec fn text(string: Option<String>) -> Option<Seq<char>> {
    match string {
        Some(s) => Some(s@),
        None => None,
    }
}

/// The target name by which clang knows the target that rustc calls
/// `target`: for 64-bit ARM on Apple systems the architecture is spelled
/// `arm64`, and every other name is the same for both.
pub open spec fn clang_target(target: Seq<char>) -> Seq<char> {
    let rust = "aarch64-apple-"@;
    if rust.is_prefix_of(target) {
        "arm64-apple-"@ + target.skip(rust.len() as int)
    } else {
        target
    }
}

/// Gives the name by which clang knows the target that rustc calls
/// `rust_target`.
pub fn rust_to_clang_target(rust_target: &str) -> (clang: String)
    ensures
        clang@ == clang_target(rust_target@),
{
    let prefix = "aarch64-apple-";
    let n: usize = prefix.unicode_len();
    let len: usize = rust_target.unicode_len();
    if len < n {
        return rust_target.to_owned();
    }
    let mut i: usize = 0;
    while i < n
        invariant
            i <= n <= len,
            prefix@ == "aarch64-apple-"@,
            n == prefix@.len(),
            len == rust_target@.len(),
            forall|j: int| 0 <= j < i ==> prefix@[j] == rust_target@[j],
        decreases n - i,
    {
        if prefix.get_char(i) != rust_target.get_char(i) {
            assert(rust_target@.subrange(0, n as int)[i as int] != prefix@[i as int]);
            return rust_target.to_owned();
        }
        i += 1;
    }
    assert(prefix@ =~= rust_target@.subrange(0, n as int));
    let rest = rust_target.substring_char(n, len);
    assert(rest@ =~= rust_target@.skip(n as int));
    String::from_str("arm64-apple-").concat(rest)
}

/// Puts `name` into a list of names, unless the list holds it already.
fn insert_name(names: &mut Vec<String>, name: &str)
    ensures
        texts(final(names)@) == with_name(texts(old(names)@), name@),
{
    let mut i: usize = 0;
    while i < names.len()
        invariant
            i <= names@.len(),
            *names == *old(names),
            forall|j: int| 0 <= j < i ==> names@[j]@ != name@,
        decreases names.len() - i,
    {
        if str_eq(names[i].as_str(), name) {
            assert(texts(names@)[i as int] == name@);
            return ;
        }
        i += 1;
    }
    assert forall|j: int| 0 <= j < texts(names@).len() implies texts(names@)[j] != name@ by {
        assert(texts(names@)[j] == names@[j]@);
    }
    let ghost before = names@;
    names.push(name.to_owned());
    assert(texts(names@) =~= texts(before).push(name@));
}

/// Puts each of `more` into a list of names, in order, unless the list
/// holds it already.
fn insert_names(names: &mut Vec<String>, more: &[&str])
    ensures
        texts(final(names)@) == with_names(texts(old(names)@), slice_texts(more@)),
{
    let mut k: usize = 0;
    while k < more.len()
        invariant
            k <= more@.len(),
            texts(names@) == with_names(texts(old(names)@), slice_texts(more@.take(k as int))),
        decreases more.len() - k,
    {
        let ghost done = slice_texts(more@.take(k as int));
        let ghost next = slice_texts(more@.take(k + 1));
        insert_name(names, more[k]);
        assert(next.drop_last() =~= done);
        assert(next.last() == more@[k as int]@);
        k += 1;
    }
    assert(more@.take(more@.len() as int) =~= more@);
}

/// Tells whether two string slices hold the same text.
fn str_eq(a: &str, b: &str) -> (same: bool)
    ensures
        same == (a@ == b@),
{
    let n: usize = a.unicode_len();
    if n != b.unicode_len() {
        return false;
    }
    let mut i: usize = 0;
    while i < n
        invariant
            i <= n,
            n == a@.len(),
            n == b@.len(),
            forall|j: int| 0 <= j < i ==> a@[j] == b@[j],
        decreases n - i,
    {
        if a.get_char(i) != b.get_char(i) {
            return false;
        }
        i += 1;
    }
    assert(a@ =~= b@);
    true
}

impl<P, G> GeneratorOptions<P, G> {
    /// No list holds a name twice.
    pub open spec fn wf(&self) -> bool {
        texts(self.skip_types@).no_duplicates() && texts(self.skip_interface_traits@).no_duplicates()
    }

    /// The options say nothing: no path, no name, no function.
    pub open spec fn is_empty(&self) -> bool {
        &&& self.include_paths@.len() == 0
        &&& self.skip_types@.len() == 0
        &&& self.skip_interface_traits@.len() == 0
        &&& self.constant_parser is None
        &&& self.iid_generator is None
        &&& self.query_interface_fn is None
        &&& self.add_ref_fn is None
        &&& self.release_fn is None
    }
}

impl<P, G> Default for GeneratorOptions<P, G> {
    /// Options that say nothing.
    fn default() -> (options: GeneratorOptions<P, G>)
        ensures
            options.is_empty(),
            options.wf(),
    {
        GeneratorOptions {
            include_paths: Vec::new(),
            skip_types: Vec::new(),
            skip_interface_traits: Vec::new(),
            constant_parser: None,
            iid_generator: None,
            query_interface_fn: None,
            add_ref_fn: None,
            release_fn: None,
        }
    }
}

impl<P, G> Generator<P, G> {
    /// Everything but the list of include paths is the same in both.
    pub open spec fn same_but_include_paths(&self, other: &Generator<P, G>) -> bool {
        &&& self.options.skip_types == other.options.skip_types
        &&& self.options.skip_interface_traits == other.options.skip_interface_traits
        &&& self.same_functions(other)
        &&& self.source == other.source
    }

    /// The two closures and the three function names are the same in both.
    pub open spec fn same_functions(&self, other: &Generator<P, G>) -> bool {
        &&& self.options.constant_parser == other.options.constant_parser
        &&& self.options.iid_generator == other.options.iid_generator
        &&& self.options.query_interface_fn == other.options.query_interface_fn
        &&& self.options.add_ref_fn == other.options.add_ref_fn
        &&& self.options.release_fn == other.options.release_fn
    }

    /// The three lists are the same in both.
    pub open spec fn same_lists(&self, other: &Generator<P, G>) -> bool {
        &&& self.options.include_paths == other.options.include_paths
        &&& self.options.skip_types == other.options.skip_types
        &&& self.options.skip_interface_traits == other.options.skip_interface_traits
    }

    /// A generator with no options set and an empty source.
    pub fn new() -> (generator: Generator<P, G>)
        ensures
            generator.options.is_empty(),
            generator.options.wf(),
            generator.source@.len() == 0,
    {
        Generator { options: GeneratorOptions::default(), source: String::new() }
    }

    /// Adds a directory to search for included headers, after those
    /// already named.
    pub fn include_path(self, path: &str) -> (generator: Generator<P, G>)
        ensures
            texts(generator.options.include_paths@) == texts(self.options.include_paths@).push(
                path@,
            ),
            generator.same_but_include_paths(&self),
    {
        let mut generator = self;
        let ghost before = generator.options.include_paths@;
        generator.options.include_paths.push(path.to_owned());
        assert(texts(generator.options.include_paths@) =~= texts(before).push(path@));
        generator
    }

    /// Names a type to leave out. Naming it again changes nothing.
    pub fn skip_type(self, type_: &str) -> (generator: Generator<P, G>)
        ensures
            texts(generator.options.skip_types@) == with_name(
                texts(self.options.skip_types@),
                type_@,
            ),
            generator.options.include_paths == self.options.include_paths,
            generator.options.skip_interface_traits == self.options.skip_interface_traits,
            generator.same_functions(&self),
            generator.source == self.source,
            self.options.wf() ==> generator.options.wf(),
    {
        let mut generator = self;
        insert_name(&mut generator.options.skip_types, type_);
        proof {
            if self.options.wf() {
                let more = seq![type_@];
                assert(more.drop_last() =~= Seq::<Seq<char>>::empty());
                assert(with_names(texts(self.options.skip_types@), more.drop_last()) == texts(self.options.skip_types@));
                lemma_with_names_distinct(texts(self.options.skip_types@), more);
            }
        }
        generator
    }

    /// Names types to leave out, in order. A name that is already in the
    /// list changes nothing.
    pub fn skip_types(self, types: &[&str]) -> (generator: Generator<P, G>)
        ensures
            texts(generator.options.skip_types@) == with_names(
                texts(self.options.skip_types@),
                slice_texts(types@),
            ),
            generator.options.include_paths == self.options.include_paths,
            generator.options.skip_interface_traits == self.options.skip_interface_traits,
            generator.same_functions(&self),
            generator.source == self.source,
            self.options.wf() ==> generator.options.wf(),
    {
        let mut generator = self;
        insert_names(&mut generator.options.skip_types, types);
        proof {
            if self.options.wf() {
                lemma_with_names_distinct(texts(self.options.skip_types@), slice_texts(types@));
            }
        }
        generator
    }

    /// Names an interface whose trait is left out. Naming it again changes
    /// nothing.
    pub fn skip_interface_trait(self, interface: &str) -> (generator: Generator<P, G>)
        ensures
            texts(generator.options.skip_interface_traits@) == with_name(
                texts(self.options.skip_interface_traits@),
                interface@,
            ),
            generator.options.include_paths == self.options.include_paths,
            generator.options.skip_types == self.options.skip_types,
            generator.same_functions(&self),
            generator.source == self.source,
            self.options.wf() ==> generator.options.wf(),
    {
        let mut generator = self;
        insert_name(&mut generator.options.skip_interface_traits, interface);
        proof {
            if self.options.wf() {
                let more = seq![interface@];
                assert(more.drop_last() =~= Seq::<Seq<char>>::empty());
                assert(with_names(texts(self.options.skip_interface_traits@), more.drop_last()) == texts(self.options.skip_interface_traits@));
                lemma_with_names_distinct(texts(self.options.skip_interface_traits@), more);
            }
        }
        generator
    }

    /// Names interfaces whose trait is left out, in order. A name that is
    /// already in the list changes nothing.
    pub fn skip_interface_traits(self, interfaces: &[&str]) -> (generator: Generator<P, G>)
        ensures
            texts(generator.options.skip_interface_traits@) == with_names(
                texts(self.options.skip_interface_traits@),
                slice_texts(interfaces@),
            ),
            generator.options.include_paths == self.options.include_paths,
            generator.options.skip_types == self.options.skip_types,
            generator.same_functions(&self),
            generator.source == self.source,
            self.options.wf() ==> generator.options.wf(),
    {
        let mut generator = self;
        insert_names(&mut generator.options.skip_interface_traits, interfaces);
        proof {
            if self.options.wf() {
                lemma_with_names_distinct(texts(self.options.skip_interface_traits@), slice_texts(interfaces@));
            }
        }
        generator
    }

    /// Sets the function that reads the value of a constant from its
    /// tokens, in place of any set before.
    pub fn constant_parser(self, f: P) -> (generator: Generator<P, G>)
        ensures
            generator.options.constant_parser == Some(f),
            generator.options.iid_generator == self.options.iid_generator,
            generator.options.query_interface_fn == self.options.query_interface_fn,
            generator.options.add_ref_fn == self.options.add_ref_fn,
            generator.options.release_fn == self.options.release_fn,
            generator.same_lists(&self),
            generator.source == self.source,
    {
        let mut generator = self;
        generator.options.constant_parser = Some(f);
        generator
    }

    /// Sets the function that spells the identity of an interface, in
    /// place of any set before.
    pub fn iid_generator(self, f: G) -> (generator: Generator<P, G>)
        ensures
            generator.options.iid_generator == Some(f),
            generator.options.constant_parser == self.options.constant_parser,
            generator.options.query_interface_fn == self.options.query_interface_fn,
            generator.options.add_ref_fn == self.options.add_ref_fn,
            generator.options.release_fn == self.options.release_fn,
            generator.same_lists(&self),
            generator.source == self.source,
    {
        let mut generator = self;
        generator.options.iid_generator = Some(f);
        generator
    }

    /// Sets the name of the operation that asks for another interface.
    pub fn query_interface_fn(self, f: &str) -> (generator: Generator<P, G>)
        ensures
            text(generator.options.query_interface_fn) == Some(f@),
            generator.options.constant_parser == self.options.constant_parser,
            generator.options.iid_generator == self.options.iid_generator,
            generator.options.add_ref_fn == self.options.add_ref_fn,
            generator.options.release_fn == self.options.release_fn,
            generator.same_lists(&self),
            generator.source == self.source,
    {
        let mut generator = self;
        generator.options.query_interface_fn = Some(f.to_owned());
        generator
    }

    /// Sets the name of the operation that takes a hold.
    pub fn add_ref_fn(self, f: &str) -> (generator: Generator<P, G>)
        ensures
            text(generator.options.add_ref_fn) == Some(f@),
            generator.options.constant_parser == self.options.constant_parser,
            generator.options.iid_generator == self.options.iid_generator,
            generator.options.query_interface_fn == self.options.query_interface_fn,
            generator.options.release_fn == self.options.release_fn,
            generator.same_lists(&self),
            generator.source == self.source,
    {
        let mut generator = self;
        generator.options.add_ref_fn = Some(f.to_owned());
        generator
    }

    /// Sets the name of the operation that gives a hold back.
    pub fn release_fn(self, f: &str) -> (generator: Generator<P, G>)
        ensures
            text(generator.options.release_fn) == Some(f@),
            generator.options.constant_parser == self.options.constant_parser,
            generator.options.iid_generator == self.options.iid_generator,
            generator.options.query_interface_fn == self.options.query_interface_fn,
            generator.options.add_ref_fn == self.options.add_ref_fn,
            generator.same_lists(&self),
            generator.source == self.source,
    {
        let mut generator = self;
        generator.options.release_fn = Some(f.to_owned());
        generator
    }

    /// Sets the source text that the generator reads, in place of any set
    /// before.
    pub fn source(self, source: String) -> (generator: Generator<P, G>)
        ensures
            generator.source == source,
            generator.same_lists(&self),
            generator.same_functions(&self),
    {
        let mut generator = self;
        generator.source = source;
        generator
    }
}

} // verus!
