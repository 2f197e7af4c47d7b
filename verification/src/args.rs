//! The command line.

use vstd::prelude::*;
use vstd::string::*;
use crate::action::texts;
use crate::text::{parse_u32, u32_meaning};

verus! {

/// What the command line asks for.
#[derive(Debug)]
pub struct Args {
    pub uid: u32,
    pub mount_dir: String,
    /// The command and its arguments: at least one word, none with a zero character in it.
    pub argv: Vec<String>,
}

/// [`Args`] over mathematical texts.
pub struct ArgsView {
    pub uid: u32,
    pub mount_dir: Seq<char>,
    pub argv: Seq<Seq<char>>,
}

impl View for Args {
    type V = ArgsView;

    open spec fn view(&self) -> ArgsView {
        ArgsView { uid: self.uid, mount_dir: self.mount_dir@, argv: texts(self.argv@) }
    }
}

/// Why a command line is refused.
#[derive(Debug)]
pub enum ArgsError {
    /// It does not have the shape that the usage line shows.
    Usage,
    /// This was given as a user, and is no number that a user can have.
    BadUid(String),
}

/// An [`ArgsError`] over mathematical texts.
pub enum ArgsErrorView {
    Usage,
    BadUid(Seq<char>),
}

impl View for ArgsError {
    type V = ArgsErrorView;

    open spec fn view(&self) -> ArgsErrorView {
        match *self {
            ArgsError::Usage => ArgsErrorView::Usage,
            ArgsError::BadUid(text) => ArgsErrorView::BadUid(text@),
        }
    }
}

/// What the options come to.
pub struct OptionsView {
    pub uid: u32,
    pub mount_dir: Option<Seq<char>>,
    /// Where the command begins: behind the word `-c`, or at the end of the command line where
    /// there is no such word.
    pub command: int,
}

/// What the options from the word `at` on come to, where those before it came to `uid` and
/// `mount_dir`. The first `-c` in the place of an option ends the options.
pub open spec fn options_from(
    words: Seq<Seq<char>>,
    at: int,
    uid: u32,
    mount_dir: Option<Seq<char>>,
) -> Result<OptionsView, ArgsErrorView>
    decreases words.len() - at,
{
    if at >= words.len() {
        Ok(OptionsView { uid, mount_dir, command: words.len() as int })
    } else if words[at] == "-c"@ {
        Ok(OptionsView { uid, mount_dir, command: at + 1 })
    } else if at + 1 >= words.len() {
        Err(ArgsErrorView::Usage)
    } else if words[at] == "-u"@ {
        match u32_meaning(words[at + 1]) {
            Some(n) => options_from(words, at + 2, n, mount_dir),
            None => Err(ArgsErrorView::BadUid(words[at + 1])),
        }
    } else if words[at] == "-m"@ {
        options_from(words, at + 2, uid, Some(words[at + 1]))
    } else {
        Err(ArgsErrorView::Usage)
    }
}

/// What the options of a command line come to. Its first word is the name of the program. Without
/// an option for it, the user is 0.
pub open spec fn options(words: Seq<Seq<char>>) -> Result<OptionsView, ArgsErrorView> {
    options_from(words, 1, 0, None)
}

/// What a command line asks for: it needs a directory and a command.
pub open spec fn parsed(words: Seq<Seq<char>>) -> Result<ArgsView, ArgsErrorView> {
    match options(words) {
        Err(e) => Err(e),
        Ok(options) => match options.mount_dir {
            Some(mount_dir) if options.command < words.len() => Ok(
                ArgsView { uid: options.uid, mount_dir, argv: words.skip(options.command) },
            ),
            _ => Err(ArgsErrorView::Usage),
        },
    }
}

/// Whether a command line has a command in which some word holds a zero character. Such a word
/// cannot be handed to a program.
pub open spec fn nul_in_command(words: Seq<Seq<char>>) -> bool {
    options(words) matches Ok(options) && exists|i: int|
        options.command <= i < words.len() && (#[trigger] words[i]).contains('\0')
}

fn scan_options(words: &Vec<String>) -> (result: Result<(u32, Option<String>, usize), ArgsError>)
    ensures
        match options(texts(words@)) {
            Ok(options) => result matches Ok((uid, mount_dir, command)) && options == (OptionsView {
                uid,
                mount_dir: crate::action::optional_text(mount_dir),
                command: command as int,
            }) && command <= words@.len(),
            Err(e) => result matches Err(error) && error@ == e,
        },
{
    let ghost all = texts(words@);
    let mut uid: u32 = 0;
    let mut mount_dir: Option<String> = None;
    let mut at: usize = 1;
    while at < words.len()
        invariant
            1 <= at,
            all == texts(words@),
            options_from(all, at as int, uid, crate::action::optional_text(mount_dir)) == options(
                all,
            ),
        decreases words.len() - at,
    {
        assert(all[at as int] == words@[at as int]@);
        if words[at] == "-c".to_string() {
            return Ok((uid, mount_dir, at + 1));
        }
        let is_user: bool = words[at] == "-u".to_string();
        let is_mount: bool = words[at] == "-m".to_string();
        if at + 1 >= words.len() {
            return Err(ArgsError::Usage);
        }
        assert(all[at + 1] == words@[at + 1]@);
        if is_user {
            match parse_u32(words[at + 1].as_str()) {
                Some(n) => {
                    uid = n;
                },
                None => {
                    return Err(ArgsError::BadUid(words[at + 1].clone()));
                },
            }
        } else if is_mount {
            mount_dir = Some(words[at + 1].clone());
        } else {
            return Err(ArgsError::Usage);
        }
        at = at + 2;
    }
    Ok((uid, mount_dir, words.len()))
}

fn holds_nul(word: &str) -> (found: bool)
    ensures
        found == word@.contains('\0'),
{
    let length: usize = word.unicode_len();
    let mut i: usize = 0;
    while i < length
        invariant
            i <= length,
            length == word@.len(),
            forall|k: int| 0 <= k < i ==> word@[k] != '\0',
        decreases length - i,
    {
        if word.get_char(i) == '\0' {
            return true;
        }
        i = i + 1;
    }
    false
}

/// Whether a command line has a command that cannot be handed to a program, because a word of it
/// holds a zero character.
pub fn command_has_nul(words: &Vec<String>) -> (found: bool)
    ensures
        found == nul_in_command(texts(words@)),
{
    match scan_options(words) {
        Err(_) => false,
        Ok((_, _, command)) => {
            let ghost all = texts(words@);
            let mut i: usize = command;
            while i < words.len()
                invariant
                    command <= i <= words@.len(),
                    all == texts(words@),
                    options(all) matches Ok(options) && options.command == command,
                    forall|k: int| command <= k < i ==> !(#[trigger] all[k]).contains('\0'),
                decreases words.len() - i,
            {
                assert(all[i as int] == words@[i as int]@);
                if holds_nul(words[i].as_str()) {
                    return true;
                }
                i = i + 1;
            }
            false
        },
    }
}

/// Reads the command line, whose first word is the name of the program.
pub fn parse_args(words: &Vec<String>) -> (result: Result<Args, ArgsError>)
    requires
        !nul_in_command(texts(words@)),
    ensures
        match parsed(texts(words@)) {
            Ok(args) => result matches Ok(a) && a@ == args,
            Err(e) => result matches Err(error) && error@ == e,
        },
{
    let ghost all = texts(words@);
    match scan_options(words) {
        Err(e) => Err(e),
        Ok((uid, mount_dir, command)) => match mount_dir {
            None => Err(ArgsError::Usage),
            Some(mount_dir) => {
                let mut argv: Vec<String> = Vec::new();
                let mut i: usize = command;
                while i < words.len()
                    invariant
                        command <= i <= words@.len(),
                        all == texts(words@),
                        texts(argv@) == all.subrange(command as int, i as int),
                    decreases words.len() - i,
                {
                    let ghost before = argv@;
                    argv.push(words[i].clone());
                    i = i + 1;
                    assert(texts(argv@) =~= texts(before).push(all[i - 1]));
                    assert(texts(argv@) =~= all.subrange(command as int, i as int));
                }
                assert(all.subrange(command as int, i as int) =~= all.skip(command as int));
                if argv.is_empty() {
                    return Err(ArgsError::Usage);
                }
                assert(argv@.len() == all.skip(command as int).len());
                Ok(Args { uid, mount_dir, argv })
            },
        },
    }
}

/// The name that a program goes by: the first word of its command line, where it has one.
pub open spec fn program_name(words: Seq<Seq<char>>) -> Seq<char> {
    if words.len() > 0 {
        words[0]
    } else {
        "contained"@
    }
}

/// The usage line.
pub open spec fn usage_line(program: Seq<char>) -> Seq<char> {
    "Usage: "@ + program + " -u <uid> -m <rootfs_dir> -c <cmd> [args...]\n"@
}

/// What is printed about a refused command line.
pub open spec fn refusal(words: Seq<Seq<char>>, error: ArgsErrorView) -> Seq<char> {
    match error {
        ArgsErrorView::Usage => usage_line(program_name(words)),
        ArgsErrorView::BadUid(text) => "badly-formatted uid: "@ + text + "\n"@ + usage_line(
            program_name(words),
        ),
    }
}

/// The usage line of `program`.
pub fn usage(program: &str) -> (line: String)
    ensures
        line@ == usage_line(program@),
{
    "Usage: ".to_string().concat(program).concat(
        " -u <uid> -m <rootfs_dir> -c <cmd> [args...]\n",
    )
}

/// What to print about a refused command line.
pub fn refusal_text(words: &Vec<String>, error: &ArgsError) -> (text: String)
    ensures
        text@ == refusal(texts(words@), error@),
{
    let usage_line: String = if words.len() > 0 {
        usage(words[0].as_str())
    } else {
        usage("contained")
    };
    match error {
        ArgsError::Usage => usage_line,
        ArgsError::BadUid(text) => "badly-formatted uid: ".to_string().concat(
            text.as_str(),
        ).concat("\n").concat(usage_line.as_str()),
    }
}

/// An option of the command line.
pub enum CommandOption {
    /// The user, as it is written.
    User(Seq<char>),
    MountDir(Seq<char>),
}

/// The two words that an option takes.
pub open spec fn option_words(option: CommandOption) -> Seq<Seq<char>> {
    match option {
        CommandOption::User(text) => seq!["-u"@, text],
        CommandOption::MountDir(dir) => seq!["-m"@, dir],
    }
}

/// The words that options take, one option behind the other.
pub open spec fn spelled(options: Seq<CommandOption>) -> Seq<Seq<char>>
    decreases options.len(),
{
    if options.len() == 0 {
        Seq::empty()
    } else {
        option_words(options[0]) + spelled(options.skip(1))
    }
}

/// Whether every user among the options is a number.
pub open spec fn users_are_numbers(options: Seq<CommandOption>) -> bool {
    forall|i: int|
        0 <= i < options.len() ==> (#[trigger] options[i] matches CommandOption::User(text)
            ==> u32_meaning(text) is Some)
}

/// The user that the last of the options for it gives, or `uid` where there is none.
pub open spec fn last_user(options: Seq<CommandOption>, uid: u32) -> u32
    decreases options.len(),
{
    if options.len() == 0 {
        uid
    } else {
        match options.last() {
            CommandOption::User(text) => u32_meaning(text)->0,
            CommandOption::MountDir(_) => last_user(options.drop_last(), uid),
        }
    }
}

/// The directory that the last of the options for it gives, or `dir` where there is none.
pub open spec fn last_dir(options: Seq<CommandOption>, dir: Option<Seq<char>>) -> Option<Seq<char>>
    decreases options.len(),
{
    if options.len() == 0 {
        dir
    } else {
        match options.last() {
            CommandOption::User(_) => last_dir(options.drop_last(), dir),
            CommandOption::MountDir(dir) => Some(dir),
        }
    }
}

/// The command line of `program` with these options and this command.
pub open spec fn command_line(
    program: Seq<char>,
    options: Seq<CommandOption>,
    argv: Seq<Seq<char>>,
) -> Seq<Seq<char>> {
    seq![program] + spelled(options) + seq!["-c"@] + argv
}

/// The first option can be settled before the others.
proof fn lemma_first_option(options: Seq<CommandOption>, uid: u32, dir: Option<Seq<char>>)
    requires
        options.len() > 0,
    ensures
        options[0] matches CommandOption::User(text) ==> last_user(options, uid) == last_user(
            options.skip(1),
            u32_meaning(text)->0,
        ) && last_dir(options, dir) == last_dir(options.skip(1), dir),
        options[0] matches CommandOption::MountDir(d) ==> last_user(options, uid) == last_user(
            options.skip(1),
            uid,
        ) && last_dir(options, dir) == last_dir(options.skip(1), Some(d)),
    decreases options.len(),
{
    if options.len() > 1 {
        lemma_first_option(options.drop_last(), uid, dir);
        assert(options.drop_last().skip(1) =~= options.skip(1).drop_last());
        assert(options.skip(1).last() == options.last());
    } else {
        assert(options.skip(1) =~= Seq::empty());
        assert(options.drop_last() =~= Seq::empty());
    }
}

proof fn lemma_options_are_read(
    words: Seq<Seq<char>>,
    at: int,
    uid: u32,
    dir: Option<Seq<char>>,
    options: Seq<CommandOption>,
    argv: Seq<Seq<char>>,
)
    requires
        0 <= at <= words.len(),
        words.skip(at) == spelled(options) + seq!["-c"@] + argv,
        users_are_numbers(options),
    ensures
        options_from(words, at, uid, dir) == Ok::<_, ArgsErrorView>(
            OptionsView {
                uid: last_user(options, uid),
                mount_dir: last_dir(options, dir),
                command: at + spelled(options).len() + 1,
            },
        ),
    decreases options.len(),
{
    reveal_strlit("-u");
    reveal_strlit("-m");
    reveal_strlit("-c");
    assert("-u"@[1] == 'u' && "-m"@[1] == 'm' && "-c"@[1] == 'c');
    let rest = words.skip(at);
    assert(rest.len() == words.len() - at);
    if options.len() == 0 {
        assert(rest[0] == "-c"@);
        assert(words[at] == rest[0]);
    } else {
        let others = options.skip(1);
        assert(rest[0] == option_words(options[0])[0]);
        assert(rest[1] == option_words(options[0])[1]);
        assert(words[at] == rest[0]);
        assert(words[at + 1] == rest[1]);
        assert(words.skip(at + 2) =~= rest.skip(2));
        assert(rest.skip(2) =~= spelled(others) + seq!["-c"@] + argv);
        assert(users_are_numbers(others)) by {
            assert forall|i: int| 0 <= i < others.len() implies (
            #[trigger] others[i] matches CommandOption::User(text) ==> u32_meaning(text) is Some) by {
                assert(others[i] == options[i + 1]);
            }
        }
        lemma_first_option(options, uid, dir);
        match options[0] {
            CommandOption::User(text) => {
                lemma_options_are_read(words, at + 2, u32_meaning(text)->0, dir, others, argv);
            },
            CommandOption::MountDir(d) => {
                lemma_options_are_read(words, at + 2, uid, Some(d), others, argv);
            },
        }
    }
}

/// Every command line of the shape that the usage line shows is accepted: options in any order
/// and number, a directory among them, then `-c` and a command. The last option of a kind counts,
/// and what stands behind `-c` is the command as it is, whatever it looks like.
pub proof fn law_usage_is_accepted(
    program: Seq<char>,
    options: Seq<CommandOption>,
    argv: Seq<Seq<char>>,
)
    requires
        users_are_numbers(options),
        last_dir(options, None) is Some,
        argv.len() > 0,
    ensures
        parsed(command_line(program, options, argv)) == Ok::<_, ArgsErrorView>(
            ArgsView {
                uid: last_user(options, 0),
                mount_dir: last_dir(options, None)->0,
                argv,
            },
        ),
{
    let words = command_line(program, options, argv);
    assert(words.skip(1) =~= spelled(options) + seq!["-c"@] + argv);
    lemma_options_are_read(words, 1, 0, None, options, argv);
    assert(words.skip(1 + spelled(options).len() as int + 1) =~= argv);
}

/// The options that a command line has from the word `at` on.
pub open spec fn options_at(words: Seq<Seq<char>>, at: int) -> Seq<CommandOption>
    decreases words.len() - at,
{
    if at + 1 >= words.len() || words[at] == "-c"@ {
        Seq::empty()
    } else if words[at] == "-u"@ {
        seq![CommandOption::User(words[at + 1])] + options_at(words, at + 2)
    } else {
        seq![CommandOption::MountDir(words[at + 1])] + options_at(words, at + 2)
    }
}

proof fn lemma_regrouped(
    a: Seq<Seq<char>>,
    b: Seq<Seq<char>>,
    c: Seq<Seq<char>>,
    d: Seq<Seq<char>>,
)
    ensures
        a + (b + c + d) == (a + b) + c + d,
{
    assert(a + (b + c + d) =~= (a + b) + c + d);
}

proof fn lemma_options_were_spelled(
    words: Seq<Seq<char>>,
    at: int,
    uid: u32,
    dir: Option<Seq<char>>,
)
    requires
        0 <= at <= words.len(),
        options_from(words, at, uid, dir) matches Ok(o) && o.command < words.len(),
    ensures
        ({
            let o = options_from(words, at, uid, dir)->Ok_0;
            let options = options_at(words, at);
            &&& at < o.command
            &&& words.skip(at) == spelled(options) + seq!["-c"@] + words.skip(o.command)
            &&& users_are_numbers(options)
            &&& o.uid == last_user(options, uid)
            &&& o.mount_dir == last_dir(options, dir)
        }),
    decreases words.len() - at,
{
    let o = options_from(words, at, uid, dir)->Ok_0;
    let options = options_at(words, at);
    let command = words.skip(o.command);
    if words[at] == "-c"@ {
        assert(options == Seq::<CommandOption>::empty());
        assert(words.skip(at) =~= spelled(options) + seq!["-c"@] + command);
    } else {
        let others = options_at(words, at + 2);
        let first = option_words(options[0]);
        assert(options.skip(1) =~= others);
        if words[at] == "-u"@ {
            lemma_options_were_spelled(words, at + 2, u32_meaning(words[at + 1])->0, dir);
        } else {
            lemma_options_were_spelled(words, at + 2, uid, Some(words[at + 1]));
        }
        lemma_first_option(options, uid, dir);
        assert forall|i: int| 0 <= i < options.len() implies (
        #[trigger] options[i] matches CommandOption::User(text) ==> u32_meaning(text) is Some) by {
            if i > 0 {
                assert(options[i] == others[i - 1]);
            }
        }
        assert(words.skip(at) == first + words.skip(at + 2)) by {
            assert(first[0] == words[at] && first[1] == words[at + 1]);
            assert(words.skip(at) =~= first + words.skip(at + 2));
        }
        lemma_regrouped(first, spelled(others), seq!["-c"@], command);
    }
}

/// Only command lines of that shape are accepted.
pub proof fn law_only_usage_is_accepted(words: Seq<Seq<char>>)
    requires
        parsed(words) is Ok,
    ensures
        ({
            let args = parsed(words)->Ok_0;
            let options = options_at(words, 1);
            &&& words == command_line(words[0], options, args.argv)
            &&& users_are_numbers(options)
            &&& args.uid == last_user(options, 0)
            &&& Some(args.mount_dir) == last_dir(options, None)
            &&& args.argv.len() > 0
        }),
{
    lemma_options_were_spelled(words, 1, 0, None);
    let args = parsed(words)->Ok_0;
    assert(words =~= seq![words[0]] + words.skip(1));
    assert(words =~= command_line(words[0], options_at(words, 1), args.argv));
}

/// The options of a command line are read alike wherever they stand in it.
proof fn lemma_options_shift(
    words: Seq<Seq<char>>,
    shifted: Seq<Seq<char>>,
    at: int,
    by: int,
    uid: u32,
    dir: Option<Seq<char>>,
)
    requires
        0 <= at,
        0 <= by,
        shifted.len() == words.len() + by,
        forall|i: int| at <= i < words.len() ==> #[trigger] words[i] == shifted[i + by],
        at <= words.len(),
    ensures
        options_from(shifted, at + by, uid, dir) == match options_from(words, at, uid, dir) {
            Ok(o) => Ok::<_, ArgsErrorView>(OptionsView { command: o.command + by, ..o }),
            Err(e) => Err(e),
        },
    decreases words.len() - at,
{
    if at < words.len() {
        assert(words[at] == shifted[at + by]);
        if at + 1 < words.len() {
            assert(words[at + 1] == shifted[at + 1 + by]);
            if words[at] == "-u"@ {
                if let Some(n) = u32_meaning(words[at + 1]) {
                    lemma_options_shift(words, shifted, at + 2, by, n, dir);
                }
            } else {
                lemma_options_shift(words, shifted, at + 2, by, uid, Some(words[at + 1]));
            }
        }
    }
}

/// One more option in front: the user counts where it is a number, and the directory as it is, unless
/// a later option says otherwise. The rest of the command line is read as it would be without it.
pub proof fn law_one_more_option(
    program: Seq<char>,
    text: Seq<char>,
    rest: Seq<Seq<char>>,
    uid: u32,
    dir: Option<Seq<char>>,
)
    ensures
        ({
            let without = seq![program] + rest;
            let user = seq![program, "-u"@, text] + rest;
            let directory = seq![program, "-m"@, text] + rest;
            &&& options_from(user, 1, uid, dir) == match u32_meaning(text) {
                None => Err::<OptionsView, _>(ArgsErrorView::BadUid(text)),
                Some(n) => match options_from(without, 1, n, dir) {
                    Ok(o) => Ok(OptionsView { command: o.command + 2, ..o }),
                    Err(e) => Err(e),
                },
            }
            &&& options_from(directory, 1, uid, dir) == match options_from(
                without,
                1,
                uid,
                Some(text),
            ) {
                Ok(o) => Ok::<_, ArgsErrorView>(OptionsView { command: o.command + 2, ..o }),
                Err(e) => Err(e),
            }
        }),
{
    reveal_strlit("-u");
    reveal_strlit("-m");
    reveal_strlit("-c");
    assert("-u"@[1] == 'u' && "-m"@[1] == 'm' && "-c"@[1] == 'c');
    let without = seq![program] + rest;
    let user = seq![program, "-u"@, text] + rest;
    let directory = seq![program, "-m"@, text] + rest;
    assert(user[1] == "-u"@ && user[2] == text && directory[1] == "-m"@ && directory[2] == text);
    assert forall|i: int| 1 <= i < without.len() implies #[trigger] without[i] == user[i + 2] by {}
    assert forall|i: int| 1 <= i < without.len() implies #[trigger] without[i] == directory[i
        + 2] by {}
    if let Some(n) = u32_meaning(text) {
        lemma_options_shift(without, user, 1, 2, n, dir);
    }
    lemma_options_shift(without, directory, 1, 2, uid, Some(text));
}

/// What the options come to where there are none left: the command is all that stands behind `-c`; a
/// word that is no option, or an option without its value, is refused; and at the end of the command
/// line there is no command.
pub proof fn law_end_of_the_options(
    program: Seq<char>,
    word: Seq<char>,
    rest: Seq<Seq<char>>,
    uid: u32,
    dir: Option<Seq<char>>,
)
    ensures
        options_from(seq![program] + (seq!["-c"@] + rest), 1, uid, dir) == Ok::<_, ArgsErrorView>(
            OptionsView { uid, mount_dir: dir, command: 2 },
        ),
        options_from(seq![program], 1, uid, dir) == Ok::<_, ArgsErrorView>(
            OptionsView { uid, mount_dir: dir, command: 1 },
        ),
        word != "-c"@ ==> options_from(seq![program, word], 1, uid, dir) == Err::<OptionsView, _>(
            ArgsErrorView::Usage,
        ),
        word != "-c"@ && word != "-u"@ && word != "-m"@ ==> options_from(
            seq![program, word] + rest,
            1,
            uid,
            dir,
        ) == Err::<OptionsView, _>(ArgsErrorView::Usage),
{
    let line = seq![program] + (seq!["-c"@] + rest);
    assert(line[1] == "-c"@);
    assert((seq![program, word] + rest)[1] == word);
}

/// What a command line comes to: its options begin behind the name of the program, with user 0 and no
/// directory; it needs a directory and at least one word of a command, which is taken as it is.
pub proof fn law_what_is_needed(words: Seq<Seq<char>>)
    ensures
        options(words) == options_from(words, 1, 0, None),
        match options(words) {
            Err(e) => parsed(words) == Err::<ArgsView, _>(e),
            Ok(o) => match (o.mount_dir, o.command < words.len()) {
                (Some(dir), true) => parsed(words) == Ok::<_, ArgsErrorView>(
                    ArgsView {
                        uid: o.uid,
                        mount_dir: dir,
                        argv: words.subrange(o.command, words.len() as int),
                    },
                ),
                _ => parsed(words) == Err::<ArgsView, _>(ArgsErrorView::Usage),
            },
        },
{
    if let Ok(o) = options(words) {
        lemma_command_is_in_line(words, 1, 0, None);
        assert(words.skip(o.command) =~= words.subrange(o.command, words.len() as int));
    }
}

proof fn lemma_command_is_in_line(
    words: Seq<Seq<char>>,
    at: int,
    uid: u32,
    dir: Option<Seq<char>>,
)
    requires
        0 <= at,
    ensures
        options_from(words, at, uid, dir) matches Ok(o) ==> 0 <= o.command <= words.len(),
    decreases words.len() - at,
{
    if at < words.len() && words[at] != "-c"@ && at + 1 < words.len() {
        if words[at] == "-u"@ {
            if let Some(n) = u32_meaning(words[at + 1]) {
                lemma_command_is_in_line(words, at + 2, n, dir);
            }
        } else {
            lemma_command_is_in_line(words, at + 2, uid, Some(words[at + 1]));
        }
    }
}

/// The plainest command lines, in words: a user and a directory in either order, or the directory
/// alone, and the command.
pub proof fn law_plain_command_lines(
    program: Seq<char>,
    user: Seq<char>,
    dir: Seq<char>,
    argv: Seq<Seq<char>>,
)
    requires
        argv.len() > 0,
    ensures
        parsed(seq![program, "-m"@, dir, "-c"@] + argv) == Ok::<_, ArgsErrorView>(
            ArgsView { uid: 0, mount_dir: dir, argv },
        ),
        u32_meaning(user) matches Some(uid) ==> {
            &&& parsed(seq![program, "-u"@, user, "-m"@, dir, "-c"@] + argv) == Ok::<
                _,
                ArgsErrorView,
            >(ArgsView { uid, mount_dir: dir, argv })
            &&& parsed(seq![program, "-m"@, dir, "-u"@, user, "-c"@] + argv) == Ok::<
                _,
                ArgsErrorView,
            >(ArgsView { uid, mount_dir: dir, argv })
        },
        u32_meaning(user) is None ==> {
            &&& parsed(seq![program, "-u"@, user, "-m"@, dir, "-c"@] + argv) == Err::<ArgsView, _>(
                ArgsErrorView::BadUid(user),
            )
            &&& parsed(seq![program, "-m"@, dir, "-u"@, user, "-c"@] + argv) == Err::<ArgsView, _>(
                ArgsErrorView::BadUid(user),
            )
        },
{
    reveal_strlit("-u");
    reveal_strlit("-m");
    reveal_strlit("-c");
    assert("-u"@[1] == 'u' && "-m"@[1] == 'm' && "-c"@[1] == 'c');
    reveal_with_fuel(options_from, 4);
    let a = seq![program, "-m"@, dir, "-c"@] + argv;
    let b = seq![program, "-u"@, user, "-m"@, dir, "-c"@] + argv;
    let c = seq![program, "-m"@, dir, "-u"@, user, "-c"@] + argv;
    assert(a[1] == "-m"@ && a[2] == dir && a[3] == "-c"@);
    assert(b[1] == "-u"@ && b[2] == user && b[3] == "-m"@ && b[4] == dir && b[5] == "-c"@);
    assert(c[1] == "-m"@ && c[2] == dir && c[3] == "-u"@ && c[4] == user && c[5] == "-c"@);
    assert(a.skip(4) =~= argv);
    assert(b.skip(6) =~= argv);
    assert(c.skip(6) =~= argv);
}

/// A zero character counts in the command, in any word of it, and nowhere else.
pub proof fn law_nul_counts_in_the_command(
    program: Seq<char>,
    options: Seq<CommandOption>,
    argv: Seq<Seq<char>>,
)
    requires
        users_are_numbers(options),
    ensures
        nul_in_command(command_line(program, options, argv)) <==> exists|i: int|
            0 <= i < argv.len() && (#[trigger] argv[i]).contains('\0'),
{
    let words = command_line(program, options, argv);
    let n = 1 + spelled(options).len() as int + 1;
    assert(words.skip(1) =~= spelled(options) + seq!["-c"@] + argv);
    lemma_options_are_read(words, 1, 0, None, options, argv);
    assert(words.len() == n + argv.len());
    assert forall|i: int| 0 <= i < argv.len() implies #[trigger] argv[i] == words[n + i] by {}
    if nul_in_command(words) {
        let k = choose|k: int| n <= k < words.len() && (#[trigger] words[k]).contains('\0');
        assert(argv[k - n] == words[k]);
    }
    if exists|i: int| 0 <= i < argv.len() && (#[trigger] argv[i]).contains('\0') {
        let i = choose|i: int| 0 <= i < argv.len() && (#[trigger] argv[i]).contains('\0');
        assert(words[n + i].contains('\0'));
    }
}

/// What is printed about a refused command line. A program without a name is called `contained`.
pub proof fn law_refusal_texts(words: Seq<Seq<char>>, text: Seq<char>)
    ensures
        ({
            let program = if words.len() == 0 {
                "contained"@
            } else {
                words[0]
            };
            let usage = "Usage: "@ + program + " -u <uid> -m <rootfs_dir> -c <cmd> [args...]\n"@;
            &&& refusal(words, ArgsErrorView::Usage) == usage
            &&& refusal(words, ArgsErrorView::BadUid(text)) == "badly-formatted uid: "@ + text
                + "\n"@ + usage
        }),
{
}

/// The views of what was read and of an error hold everything that these hold.
pub proof fn law_args_are_seen_whole(args: Args, error: ArgsError)
    ensures
        args@.uid == args.uid,
        args@.mount_dir == args.mount_dir@,
        args@.argv.len() == args.argv@.len(),
        forall|i: int| 0 <= i < args.argv@.len() ==> args@.argv[i] == (#[trigger] args.argv@[i])@,
        match error {
            ArgsError::Usage => error@ == ArgsErrorView::Usage,
            ArgsError::BadUid(text) => error@ == ArgsErrorView::BadUid(text@),
        },
{
}

/// A command line whose options are refused has no command, and so no zero character that counts.
pub proof fn law_refused_options_have_no_command(words: Seq<Seq<char>>)
    requires
        options(words) is Err,
    ensures
        !nul_in_command(words),
        parsed(words) is Err,
{
}

} // verus!
