//! The display configuration and the command line that sets it.

use vstd::prelude::*;
use crate::entries::types::{is_hidden, is_hidden_name, Entry};
use crate::text::same_text;

verus! {

/// The display configuration: which entries are listed, which fields are
/// shown with each, and how the listing is laid out.
#[derive(Clone, Copy, Debug, PartialEq, Eq, Structural)]
pub struct Arguments {
    pub show_hidden: bool,
    pub perm: bool,
    pub date: bool,
    pub size: bool,
    pub no_order: bool,
    pub force_print_as_lines: bool,
}

/// What one word of the command line asks for.
#[derive(Clone, Copy, Debug, PartialEq, Eq, Structural)]
pub enum Request {
    /// The word set flags of the configuration.
    Flags,
    /// The word asks for the help text; nothing is listed.
    Help,
    /// The word asks for the version; nothing is listed.
    Version,
    /// The word is no known option.
    Invalid,
}

/// What a whole command line asks for.
#[derive(Clone, Debug)]
pub enum Invocation {
    /// List the directory at `path` under the configuration `arguments`.
    List { arguments: Arguments, path: String },
    /// Print the help text.
    Help,
    /// Print the version.
    Version,
    /// Report an invalid argument.
    Invalid,
}

/// What a whole command line asks for, over plain values.
pub enum Interpretation {
    List { arguments: Arguments, path: Seq<char> },
    Help,
    Version,
    Invalid,
}

impl View for Invocation {
    type V = Interpretation;

    open spec fn view(&self) -> Interpretation {
        match *self {
            Invocation::List { arguments, path } => Interpretation::List { arguments, path: path@ },
            Invocation::Help => Interpretation::Help,
            Invocation::Version => Interpretation::Version,
            Invocation::Invalid => Interpretation::Invalid,
        }
    }
}

/// The configuration with every flag off.
pub open spec fn no_flags() -> Arguments {
    Arguments {
        show_hidden: false,
        perm: false,
        date: false,
        size: false,
        no_order: false,
        force_print_as_lines: false,
    }
}

/// Whether `word` is an option in its long or its short form.
pub open spec fn names(word: Seq<char>, long: &str, short: &str) -> bool {
    word == long@ || word == short@
}

/// What a word that starts with a dash asks for.
pub open spec fn request_of(word: Seq<char>) -> Request {
    if names(word, "--help", "-h") {
        Request::Help
    } else if names(word, "--version", "-v") {
        Request::Version
    } else if names(word, "--date", "-d") || names(word, "--no-order", "-no") || names(
        word,
        "--permissions",
        "-p",
    ) || names(word, "--size", "-s") || names(word, "--show-hidden", "-sh") || names(
        word,
        "--lines",
        "-l",
    ) || names(word, "--all", "-a") {
        Request::Flags
    } else {
        Request::Invalid
    }
}

/// The configuration after a word: a flag option sets its flag, `--all`
/// sets date, permissions, size and hidden entries, any other word changes
/// nothing.
pub open spec fn with_word(flags: Arguments, word: Seq<char>) -> Arguments {
    if request_of(word) != Request::Flags {
        flags
    } else if names(word, "--date", "-d") {
        Arguments { date: true, ..flags }
    } else if names(word, "--no-order", "-no") {
        Arguments { no_order: true, ..flags }
    } else if names(word, "--permissions", "-p") {
        Arguments { perm: true, ..flags }
    } else if names(word, "--size", "-s") {
        Arguments { size: true, ..flags }
    } else if names(word, "--show-hidden", "-sh") {
        Arguments { show_hidden: true, ..flags }
    } else if names(word, "--lines", "-l") {
        Arguments { force_print_as_lines: true, ..flags }
    } else {
        Arguments { date: true, perm: true, size: true, show_hidden: true, ..flags }
    }
}

/// Whether a word is an option: it starts with a dash.
pub open spec fn is_option(word: Seq<char>) -> bool {
    word.len() > 0 && word[0] == '-'
}

/// What the words from `from` on ask for, with the configuration and the
/// path that the words before them have left. A word that is no option
/// replaces the path; the first option that asks for help or the version,
/// or is invalid, decides.
pub open spec fn interpretation(
    words: Seq<Seq<char>>,
    from: int,
    flags: Arguments,
    path: Seq<char>,
) -> Interpretation
    decreases words.len() - from,
{
    if from < 0 || from >= words.len() {
        Interpretation::List { arguments: flags, path }
    } else if !is_option(words[from]) {
        interpretation(words, from + 1, flags, words[from])
    } else {
        match request_of(words[from]) {
            Request::Flags => interpretation(
                words,
                from + 1,
                with_word(flags, words[from]),
                path,
            ),
            Request::Help => Interpretation::Help,
            Request::Version => Interpretation::Version,
            Request::Invalid => Interpretation::Invalid,
        }
    }
}

/// The entries that a configuration lists: all of them where hidden entries
/// are shown, else those whose name does not start with a dot.
pub open spec fn listed(flags: Arguments, entries: Seq<Entry>) -> Seq<Entry> {
    entries.filter(|entry: Entry| flags.show_hidden || !is_hidden_name(entry.name@))
}

impl Default for Arguments {
    fn default() -> (flags: Arguments)
        ensures
            flags == no_flags(),
    {
        Arguments {
            show_hidden: false,
            perm: false,
            date: false,
            size: false,
            no_order: false,
            force_print_as_lines: false,
        }
    }
}

impl Arguments {
    /// Whether hidden entries are listed.
    pub fn show_hidden(&self) -> (flag: bool)
        ensures
            flag == self.show_hidden,
    {
        self.show_hidden
    }

    /// Whether the permissions are shown.
    pub fn permissions(&self) -> (flag: bool)
        ensures
            flag == self.perm,
    {
        self.perm
    }

    /// Whether the date of the last modification is shown.
    pub fn date(&self) -> (flag: bool)
        ensures
            flag == self.date,
    {
        self.date
    }

    /// Whether the size is shown.
    pub fn size(&self) -> (flag: bool)
        ensures
            flag == self.size,
    {
        self.size
    }

    /// Whether the entries keep the order in which they were read.
    pub fn no_order(&self) -> (flag: bool)
        ensures
            flag == self.no_order,
    {
        self.no_order
    }

    /// Whether the listing has one entry per line even without fields.
    pub fn force_print_as_lines(&self) -> (flag: bool)
        ensures
            flag == self.force_print_as_lines,
    {
        self.force_print_as_lines
    }

    /// Keeps the entries that this configuration lists, in their order.
    pub fn analyze_entries(&self, entries: Vec<Entry>) -> (kept: Vec<Entry>)
        ensures
            kept@ == listed(*self, entries@),
    {
        let ghost keep = |entry: Entry| self.show_hidden || !is_hidden_name(entry.name@);
        let ghost all = entries@;
        let mut kept: Vec<Entry> = Vec::new();
        assert(all.take(0).filter(keep) =~= Seq::<Entry>::empty());
        for entry in it: entries
            invariant
                it.seq() == all,
                keep == (|entry: Entry| self.show_hidden || !is_hidden_name(entry.name@)),
                kept@ == all.take(it.index() as int).filter(keep),
        {
            proof {
                all.take(it.index() as int).lemma_filter_push(entry, keep);
                assert(all.take(it.index() + 1) =~= all.take(it.index() as int).push(entry));
            }
            if self.show_hidden || !is_hidden(entry.name.as_str()) {
                kept.push(entry);
            }
        }
        assert(all.take(all.len() as int) =~= all);
        kept
    }

    /// Applies one option of the command line. A flag option sets its flag
    /// and `--all` sets four; any other word leaves the configuration as it
    /// is, and the result says what it asks for.
    pub fn parse_arguments(&mut self, argument: &str) -> (request: Request)
        ensures
            request == request_of(argument@),
            *final(self) == with_word(*old(self), argument@),
    {
        if same_text(argument, "--help") || same_text(argument, "-h") {
            Request::Help
        } else if same_text(argument, "--version") || same_text(argument, "-v") {
            Request::Version
        } else if same_text(argument, "--date") || same_text(argument, "-d") {
            self.date = true;
            Request::Flags
        } else if same_text(argument, "--no-order") || same_text(argument, "-no") {
            self.no_order = true;
            Request::Flags
        } else if same_text(argument, "--permissions") || same_text(argument, "-p") {
            self.perm = true;
            Request::Flags
        } else if same_text(argument, "--size") || same_text(argument, "-s") {
            self.size = true;
            Request::Flags
        } else if same_text(argument, "--show-hidden") || same_text(argument, "-sh") {
            self.show_hidden = true;
            Request::Flags
        } else if same_text(argument, "--lines") || same_text(argument, "-l") {
            self.force_print_as_lines = true;
            Request::Flags
        } else if same_text(argument, "--all") || same_text(argument, "-a") {
            self.date = true;
            self.perm = true;
            self.size = true;
            self.show_hidden = true;
            Request::Flags
        } else {
            Request::Invalid
        }
    }

    /// Reads a command line, the program's name left out: the words that
    /// are no options name the directory, the last of them counts, and
    /// `current_dir` stands where there is none.
    #[verifier::loop_isolation(false)]
    pub fn interpreter(command_arguments: Vec<String>, current_dir: String) -> (invocation:
        Invocation)
        ensures
            invocation@ == interpretation(
                command_arguments.deep_view(),
                0,
                no_flags(),
                current_dir@,
            ),
    {
        let ghost words = command_arguments.deep_view();
        let ghost start = current_dir@;
        let mut arguments = Arguments::default();
        let mut path = current_dir;
        for argument in it: command_arguments
            invariant
                it.seq().len() == words.len(),
                forall|i: int| 0 <= i < words.len() ==> #[trigger] it.seq()[i]@ == words[i],
                interpretation(words, it.index() as int, arguments, path@) == interpretation(
                    words,
                    0,
                    no_flags(),
                    start,
                ),
        {
            assert(argument@ == words[it.index() as int]);
            if !starts_with_dash(argument.as_str()) {
                path = argument;
            } else {
                match arguments.parse_arguments(argument.as_str()) {
                    Request::Flags => {},
                    Request::Help => {
                        return Invocation::Help;
                    },
                    Request::Version => {
                        return Invocation::Version;
                    },
                    Request::Invalid => {
                        return Invocation::Invalid;
                    },
                }
            }
        }
        Invocation::List { arguments, path }
    }
}

/// Unless hidden entries are asked for, no listed entry has a hidden name;
/// and every listed entry is one of the entries.
pub proof fn listed_entries_are_visible(flags: Arguments, entries: Seq<Entry>, i: int)
    requires
        0 <= i < listed(flags, entries).len(),
    ensures
        flags.show_hidden || !is_hidden_name(listed(flags, entries)[i].name@),
        entries.contains(listed(flags, entries)[i]),
        flags.show_hidden ==> listed(flags, entries) == entries,
{
    let keep = |entry: Entry| flags.show_hidden || !is_hidden_name(entry.name@);
    entries.lemma_filter_pred(keep, i);
    entries.lemma_filter_contains_rev(keep, listed(flags, entries)[i]);
    if flags.show_hidden {
        lemma_keep_all(entries, keep);
    }
}

/// A filter that keeps every element keeps the sequence.
proof fn lemma_keep_all(entries: Seq<Entry>, keep: spec_fn(Entry) -> bool)
    requires
        forall|entry: Entry| #[trigger] keep(entry),
    ensures
        entries.filter(keep) == entries,
    decreases entries.len(),
{
    reveal(Seq::filter);
    if entries.len() > 0 {
        lemma_keep_all(entries.drop_last(), keep);
        assert(entries.drop_last().push(entries.last()) =~= entries);
    }
}

/// A word only sets flags: what was set before it stays set.
pub proof fn words_only_set_flags(flags: Arguments, word: Seq<char>)
    ensures
        flags.show_hidden ==> with_word(flags, word).show_hidden,
        flags.perm ==> with_word(flags, word).perm,
        flags.date ==> with_word(flags, word).date,
        flags.size ==> with_word(flags, word).size,
        flags.no_order ==> with_word(flags, word).no_order,
        flags.force_print_as_lines ==> with_word(flags, word).force_print_as_lines,
{
}

/// Whether a word starts with a dash.
pub fn starts_with_dash(word: &str) -> (option: bool)
    ensures
        option == is_option(word@),
{
    word.unicode_len() > 0 && word.get_char(0) == '-'
}

} // verus!
