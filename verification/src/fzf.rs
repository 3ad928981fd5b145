//! The `fzf` launcher: its options, their rendering into flags, and the
//! description of the process that a launch starts.

use crate::decimal::{decimal, to_decimal};
use crate::flags::{
    count_present, lemma_flag_shape, lemma_render_len, lemma_render_next, lemma_render_order,
    lemma_render_origin, lemma_render_place, plain, render, well_shaped, Field,
};
use vstd::prelude::*;

verus! {

/// The failure of launching `fzf`.
#[derive(Debug)]
pub enum SpawnError {
    /// The process could not be started, or its input could not be written.
    IOError(std::io::Error),
}

impl SpawnError {
    /// Turns the outcome of one step of a launch into the launcher's own
    /// result: a success passes through, and every failure becomes
    /// [`SpawnError::IOError`] with the cause attached unchanged.
    pub fn lift<T>(outcome: Result<T, std::io::Error>) -> (r: Result<T, SpawnError>)
        ensures
            match outcome {
                Ok(v) => r == Ok::<T, SpawnError>(v),
                Err(e) => r == Err::<T, SpawnError>(SpawnError::IOError(e)),
            },
    {
        match outcome {
            Ok(v) => Ok(v),
            Err(e) => Err(SpawnError::IOError(e)),
        }
    }
}

/// The text of an optional string.
pub open spec fn text(s: Option<String>) -> Option<Seq<char>> {
    match s {
        Some(s) => Some(s@),
        None => None,
    }
}

/// The options of one launch. Every field is independent of the others.
pub struct FzfArgs {
    /// A line to write to the standard input of `fzf` once it runs. It is
    /// no flag.
    pub print_query: Option<String>,
    /// The header shown above the list.
    pub header: Option<String>,
    /// Whether the layout is reversed.
    pub reverse: bool,
    /// The command that previews the current line.
    pub preview: Option<String>,
    /// The index of the only field of each line that is displayed.
    pub with_nth: Option<usize>,
    /// Whether matching ignores case.
    pub ignore_case: bool,
    /// The query that the search starts with.
    pub query: Option<String>,
    /// Whether moving past the last result goes on at the first.
    pub cycle: bool,
    /// The delimiter between the fields of a line.
    pub delimiter: Option<String>,
    /// The size and placement of the preview window.
    pub preview_window: Option<String>,
}

/// The options of one launch as plain values.
pub struct FzfArgsView {
    pub print_query: Option<Seq<char>>,
    pub header: Option<Seq<char>>,
    pub reverse: bool,
    pub preview: Option<Seq<char>>,
    pub with_nth: Option<nat>,
    pub ignore_case: bool,
    pub query: Option<Seq<char>>,
    pub cycle: bool,
    pub delimiter: Option<Seq<char>>,
    pub preview_window: Option<Seq<char>>,
}

impl View for FzfArgs {
    type V = FzfArgsView;

    open spec fn view(&self) -> FzfArgsView {
        FzfArgsView {
            print_query: text(self.print_query),
            header: text(self.header),
            reverse: self.reverse,
            preview: text(self.preview),
            with_nth: match self.with_nth {
                Some(n) => Some(n as nat),
                None => None,
            },
            ignore_case: self.ignore_case,
            query: text(self.query),
            cycle: self.cycle,
            delimiter: text(self.delimiter),
            preview_window: text(self.preview_window),
        }
    }
}

impl FzfArgsView {
    /// The options with every field absent or false.
    pub open spec fn empty() -> FzfArgsView {
        FzfArgsView {
            print_query: None,
            header: None,
            reverse: false,
            preview: None,
            with_nth: None,
            ignore_case: false,
            query: None,
            cycle: false,
            delimiter: None,
            preview_window: None,
        }
    }

    /// The field index in decimal notation.
    pub open spec fn with_nth_text(self) -> Option<Seq<char>> {
        match self.with_nth {
            Some(n) => Some(decimal(n)),
            None => None,
        }
    }

    /// The nine fields that render into flags, in their fixed order.
    pub open spec fn fields(self) -> Seq<Field> {
        seq![
            Field::Valued { name: "--header"@, value: self.header },
            Field::Switch { name: "--reverse"@, on: self.reverse },
            Field::Valued { name: "--preview"@, value: self.preview },
            Field::Valued { name: "--with-nth"@, value: self.with_nth_text() },
            Field::Switch { name: "--ignore-case"@, on: self.ignore_case },
            Field::Valued { name: "--query"@, value: self.query },
            Field::Switch { name: "--cycle"@, on: self.cycle },
            Field::Valued { name: "--delimiter"@, value: self.delimiter },
            Field::Valued { name: "--preview-window"@, value: self.preview_window },
        ]
    }

    /// The flags that the options render into: one for each field that is
    /// present, in the order of the fields.
    pub open spec fn flags(self) -> Seq<Seq<char>> {
        render(self.fields())
    }

    /// What is written to the standard input of the process: the initial
    /// line and one newline, or nothing at all.
    pub open spec fn input(self) -> Option<Seq<char>> {
        match self.print_query {
            Some(line) => Some(line + seq!['\n']),
            None => None,
        }
    }
}

/// Every set of options renders into exactly one flag for each field that
/// is present and no flag for a field that is absent or false, in the fixed
/// order of the fields: there are as many flags as fields that are present,
/// the flag of a present field stands at the place that the number of present
/// fields before it gives, and the places grow with the order of the fields.
pub proof fn lemma_one_flag_per_present_field(options: FzfArgsView)
    ensures
        options.fields().len() == 9,
        options.flags().len() == count_present(options.fields()),
        forall|k: int|
            0 <= k < 9 && (#[trigger] options.fields()[k]).present() ==> {
                let place = count_present(options.fields().take(k)) as int;
                &&& place < options.flags().len()
                &&& options.flags()[place] == options.fields()[k].flag()->0
            },
        forall|j: int, k: int|
            0 <= j < k < 9 && (#[trigger] options.fields()[j]).present() ==> count_present(
                options.fields().take(j),
            ) < count_present(#[trigger] options.fields().take(k)),
{
    let fields = options.fields();
    lemma_render_len(fields);
    assert forall|k: int| 0 <= k < 9 && (#[trigger] fields[k]).present() implies {
        let place = count_present(fields.take(k)) as int;
        &&& place < render(fields).len()
        &&& render(fields)[place] == fields[k].flag()->0
    } by {
        lemma_render_place(fields, k);
    }
    assert forall|j: int, k: int|
        0 <= j < k < 9 && (#[trigger] fields[j]).present() implies count_present(fields.take(j))
        < count_present(#[trigger] fields.take(k)) by {
        lemma_render_order(fields, j, k);
    }
}

/// None of the nine flag names holds `=` or a blank.
pub proof fn lemma_flag_names(options: FzfArgsView)
    ensures
        forall|k: int| 0 <= k < 9 ==> plain(#[trigger] options.fields()[k].name()),
{
    reveal_strlit("--header");
    reveal_strlit("--reverse");
    reveal_strlit("--preview");
    reveal_strlit("--with-nth");
    reveal_strlit("--ignore-case");
    reveal_strlit("--query");
    reveal_strlit("--cycle");
    reveal_strlit("--delimiter");
    reveal_strlit("--preview-window");
}

/// A boolean field renders as a bare flag, without `=` and without a value;
/// a field with a value renders as `--name=value`, with no blank and nothing
/// else between the name, the `=` and the value.
pub proof fn lemma_flag_shapes(options: FzfArgsView)
    ensures
        forall|k: int|
            0 <= k < 9 && (#[trigger] options.fields()[k]).present() ==> well_shaped(
                options.fields()[k],
            ),
{
    let fields = options.fields();
    lemma_flag_names(options);
    assert forall|k: int| 0 <= k < 9 && (#[trigger] fields[k]).present() implies well_shaped(
        fields[k],
    ) by {
        lemma_flag_shape(fields[k]);
    }
}

/// No flag comes from anywhere else: the flag at place `i` is the flag of
/// one of the nine fields, which is present, has as many present fields
/// before it as `i` says, and gives the flag its shape. That field's index
/// is returned.
pub proof fn lemma_flag_origin(options: FzfArgsView, i: int) -> (k: int)
    requires
        0 <= i < options.flags().len(),
    ensures
        0 <= k < 9,
        options.fields()[k].present(),
        count_present(options.fields().take(k)) == i,
        options.fields()[k].flag() == Some(options.flags()[i]),
        well_shaped(options.fields()[k]),
{
    let k = lemma_render_origin(options.fields(), i);
    lemma_flag_shapes(options);
    k
}

impl Default for FzfArgs {
    fn default() -> (r: FzfArgs)
        ensures
            r@ == FzfArgsView::empty(),
    {
        FzfArgs {
            print_query: None,
            header: None,
            reverse: false,
            preview: None,
            with_nth: None,
            ignore_case: false,
            query: None,
            cycle: false,
            delimiter: None,
            preview_window: None,
        }
    }
}

/// Appends what a field with a value contributes: the flag `name=value`
/// where the value is present.
fn push_valued(out: &mut Vec<String>, name: &str, value: &Option<String>)
    ensures
        final(out).deep_view() == old(out).deep_view() + (Field::Valued {
            name: name@,
            value: text(*value),
        }).rendered(),
{
    match value {
        Some(v) => {
            let mut flag: String = String::from_str(name);
            flag.append("=");
            flag.append(v.as_str());
            proof {
                reveal_strlit("=");
                assert("="@ =~= seq!['=']);
            }
            out.push(flag);
        },
        None => {},
    }
    assert(out.deep_view() =~= old(out).deep_view() + (Field::Valued {
        name: name@,
        value: text(*value),
    }).rendered());
}

/// Appends what a boolean field contributes: the bare flag `name` where the
/// field is true.
fn push_switch(out: &mut Vec<String>, name: &str, on: bool)
    ensures
        final(out).deep_view() == old(out).deep_view() + (Field::Switch {
            name: name@,
            on,
        }).rendered(),
{
    if on {
        out.push(String::from_str(name));
    }
    assert(out.deep_view() =~= old(out).deep_view() + (Field::Switch { name: name@, on }).rendered());
}

/// The field index in decimal notation.
fn index_text(index: Option<usize>) -> (r: Option<String>)
    ensures
        text(r) == match index {
            Some(n) => Some(decimal(n as nat)),
            None => None,
        },
{
    match index {
        Some(n) => Some(to_decimal(n)),
        None => None,
    }
}

/// The launcher: the program to start and the arguments that every launch
/// begins with.
pub struct Fzf {
    /// The name or path of the program.
    pub executable: String,
    /// The base arguments, which stand before the flags of every launch.
    pub args: Vec<String>,
}

/// The launcher as plain values.
pub struct FzfView {
    pub executable: Seq<char>,
    pub args: Seq<Seq<char>>,
}

impl View for Fzf {
    type V = FzfView;

    open spec fn view(&self) -> FzfView {
        FzfView { executable: self.executable@, args: self.args.deep_view() }
    }
}

/// The process that a launch starts: the program, its argument vector, and
/// what is written to its standard input.
pub struct Invocation {
    /// The name or path of the program to start.
    pub program: String,
    /// The argument vector, without the program's own name.
    pub args: Vec<String>,
    /// `Some` where the standard input of the process is a pipe that receives
    /// this text; `None` where it is left as the parent has it and nothing
    /// is written.
    pub input: Option<String>,
}

/// An invocation as plain values.
pub struct InvocationView {
    pub program: Seq<char>,
    pub args: Seq<Seq<char>>,
    pub input: Option<Seq<char>>,
}

impl View for Invocation {
    type V = InvocationView;

    open spec fn view(&self) -> InvocationView {
        InvocationView {
            program: self.program@,
            args: self.args.deep_view(),
            input: text(self.input),
        }
    }
}

impl FzfView {
    /// The argument vector of a launch: the base arguments, then the flags
    /// of the options.
    pub open spec fn arguments(self, options: FzfArgsView) -> Seq<Seq<char>> {
        self.args + options.flags()
    }

    /// The process that a launch with these options starts.
    pub open spec fn invocation(self, options: FzfArgsView) -> InvocationView {
        InvocationView {
            program: self.executable,
            args: self.arguments(options),
            input: options.input(),
        }
    }
}

/// The argument vector of a launch begins with the base arguments of the
/// launcher, unchanged, and what follows them are the flags of that launch's
/// own options and nothing else.
pub proof fn lemma_arguments_split(fzf: FzfView, options: FzfArgsView)
    ensures
        fzf.arguments(options).len() == fzf.args.len() + options.flags().len(),
        fzf.arguments(options).take(fzf.args.len() as int) == fzf.args,
        fzf.arguments(options).skip(fzf.args.len() as int) == options.flags(),
{
    assert(fzf.arguments(options).take(fzf.args.len() as int) =~= fzf.args);
    assert(fzf.arguments(options).skip(fzf.args.len() as int) =~= options.flags());
}

/// Two launches from one launcher do not affect each other. Both start the
/// launcher's program; behind the base arguments, which both begin with,
/// each argument vector holds the flags of its own options and nothing of the
/// other's; and each writes its own initial line or none.
pub proof fn lemma_launches_independent(fzf: FzfView, first: FzfArgsView, second: FzfArgsView)
    ensures
        fzf.invocation(first).program == fzf.executable,
        fzf.invocation(second).program == fzf.executable,
        fzf.invocation(first).args.take(fzf.args.len() as int) == fzf.args,
        fzf.invocation(second).args.take(fzf.args.len() as int) == fzf.args,
        fzf.invocation(first).args.skip(fzf.args.len() as int) == first.flags(),
        fzf.invocation(second).args.skip(fzf.args.len() as int) == second.flags(),
        fzf.invocation(first).input == first.input(),
        fzf.invocation(second).input == second.input(),
{
    lemma_arguments_split(fzf, first);
    lemma_arguments_split(fzf, second);
}

impl FzfArgs {
    /// Renders the options into flags: one for each field that is present,
    /// none for a field that is absent or false, in the fixed order of the
    /// fields. The values are passed through as they are.
    pub fn flags(&self) -> (out: Vec<String>)
        ensures
            out.deep_view() == self@.flags(),
    {
        let ghost fields = self@.fields();
        let mut out: Vec<String> = Vec::new();
        assert(out.deep_view() =~= render(fields.take(0)));
        push_valued(&mut out, "--header", &self.header);
        proof {
            lemma_render_next(fields, 0);
        }
        push_switch(&mut out, "--reverse", self.reverse);
        proof {
            lemma_render_next(fields, 1);
        }
        push_valued(&mut out, "--preview", &self.preview);
        proof {
            lemma_render_next(fields, 2);
        }
        push_valued(&mut out, "--with-nth", &index_text(self.with_nth));
        proof {
            lemma_render_next(fields, 3);
        }
        push_switch(&mut out, "--ignore-case", self.ignore_case);
        proof {
            lemma_render_next(fields, 4);
        }
        push_valued(&mut out, "--query", &self.query);
        proof {
            lemma_render_next(fields, 5);
        }
        push_switch(&mut out, "--cycle", self.cycle);
        proof {
            lemma_render_next(fields, 6);
        }
        push_valued(&mut out, "--delimiter", &self.delimiter);
        proof {
            lemma_render_next(fields, 7);
        }
        push_valued(&mut out, "--preview-window", &self.preview_window);
        proof {
            lemma_render_next(fields, 8);
            assert(fields.take(9) =~= fields);
        }
        out
    }

    /// What a launch writes to the standard input of the process: the
    /// initial line followed by one newline, or `None` where the options hold
    /// no initial line.
    pub fn input(&self) -> (r: Option<String>)
        ensures
            text(r) == self@.input(),
    {
        match &self.print_query {
            Some(line) => {
                let mut payload: String = String::from_str(line.as_str());
                payload.append("\n");
                proof {
                    reveal_strlit("\n");
                    assert("\n"@ =~= seq!['\n']);
                }
                Some(payload)
            },
            None => None,
        }
    }
}

impl Fzf {
    /// The launcher of the program `fzf`, with no base arguments.
    pub fn new() -> (r: Fzf)
        ensures
            r@ == (FzfView { executable: "fzf"@, args: Seq::empty() }),
    {
        let r = Fzf { executable: String::from_str("fzf"), args: Vec::new() };
        assert(r.args.deep_view() =~= Seq::empty());
        r
    }

    /// A copy of the base arguments.
    fn base_arguments(&self) -> (out: Vec<String>)
        ensures
            out.deep_view() == self.args.deep_view(),
    {
        let mut out: Vec<String> = Vec::new();
        let mut i: usize = 0;
        while i < self.args.len()
            invariant
                i <= self.args.len(),
                out.len() == i,
                forall|k: int| 0 <= k < i ==> out[k]@ == self.args[k]@,
            decreases self.args.len() - i,
        {
            out.push(self.args[i].clone());
            i = i + 1;
        }
        assert(out.deep_view() =~= self.args.deep_view());
        out
    }

    /// Renders the argument vector of a launch: the base arguments, then the
    /// flags of the options.
    pub fn arguments(&self, options: &FzfArgs) -> (out: Vec<String>)
        ensures
            out.deep_view() == self@.arguments(options@),
    {
        let mut out: Vec<String> = self.base_arguments();
        let mut flags: Vec<String> = options.flags();
        let ghost base = out;
        let ghost rest = flags;
        out.append(&mut flags);
        assert(out.deep_view() =~= base.deep_view() + rest.deep_view());
        out
    }

    /// Describes the process that a launch with these options starts. The
    /// launcher itself is left as it was, so one launch has no effect on the
    /// next.
    pub fn invocation(&self, options: &FzfArgs) -> (r: Invocation)
        ensures
            r@ == self@.invocation(options@),
    {
        Invocation {
            program: self.executable.clone(),
            args: self.arguments(options),
            input: options.input(),
        }
    }
}

} // verus!
