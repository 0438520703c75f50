//! File formats, and how a file is recognised as one.
use vstd::prelude::*;

use crate::text::{ends_with, from_chars, is_white, lower, lowered_text, same, starts_with, to_chars, white_end};

verus! {

/// A file format the editor knows how to color.
#[derive(Debug, Clone, Copy, PartialEq, Eq, Structural)]
pub enum Language {
    /// A log, a README, a file nothing here recognised. One run per line.
    Plain,
    /// `sh`, `bash`, `zsh` and the rc files they read.
    Shell,
    /// `.yml`, `.yaml`.
    Yaml,
    /// `.json`.
    Json,
    /// `.toml`.
    Toml,
    /// `.ini`, `.conf`, `.cfg`, `.properties`, `.env`, and the config files that
    /// spell a mapping `key value`.
    Conf,
    /// `Dockerfile`, `Dockerfile.*`, `Containerfile`.
    Dockerfile,
}

impl Default for Language {
    fn default() -> (language: Language)
        ensures
            language == Language::Plain,
    {
        Language::Plain
    }
}

/// Where the last component of a path starts.
pub open spec fn leaf_start(path: Seq<char>, separators: Set<char>) -> int
    decreases path.len(),
{
    if path.len() == 0 {
        0
    } else if separators.contains(path.last()) {
        path.len() as int
    } else {
        leaf_start(path.drop_last(), separators)
    }
}

/// The last component of a path.
pub open spec fn leaf(path: Seq<char>, separators: Set<char>) -> Seq<char> {
    path.skip(leaf_start(path, separators))
}

/// The characters that part the components of a file name.
pub open spec fn name_separators() -> Set<char> {
    set!['/', '\\']
}

/// A text is one of these.
pub open spec fn is_one_of(text: Seq<char>, texts: Seq<Seq<char>>) -> bool {
    exists|i: int| 0 <= i < texts.len() && text == #[trigger] texts[i]
}

/// The rc files that a shell reads.
pub open spec fn shell_names() -> Seq<Seq<char>> {
    seq![
        ".bashrc"@,
        ".bash_profile"@,
        ".bash_login"@,
        ".bash_logout"@,
        ".profile"@,
        ".zshrc"@,
        ".zshenv"@,
        ".zprofile"@,
        ".zlogin"@,
        ".zlogout"@,
        ".kshrc"@,
        ".shrc"@,
    ]
}

/// Config files without an extension of their own.
pub open spec fn conf_names() -> Seq<Seq<char>> {
    seq!["sshd_config"@, "ssh_config"@, ".gitconfig"@, ".npmrc"@, ".editorconfig"@]
}

/// The language of a whole name, in small letters.
pub open spec fn named_language(name: Seq<char>) -> Option<Language> {
    if name == "dockerfile"@ || name == "containerfile"@ || "dockerfile."@.is_prefix_of(name)
        || ".dockerfile"@.is_suffix_of(name) {
        Some(Language::Dockerfile)
    } else if is_one_of(name, shell_names()) {
        Some(Language::Shell)
    } else if name == ".env"@ || ".env."@.is_prefix_of(name) {
        Some(Language::Conf)
    } else if is_one_of(name, conf_names()) {
        Some(Language::Conf)
    } else {
        None
    }
}

/// The language of an extension, in small letters.
pub open spec fn extension_language(extension: Seq<char>) -> Language {
    if is_one_of(extension, seq!["sh"@, "bash"@, "zsh"@, "ksh"@, "ash"@, "mksh"@]) {
        Language::Shell
    } else if is_one_of(extension, seq!["yml"@, "yaml"@]) {
        Language::Yaml
    } else if extension == "json"@ {
        Language::Json
    } else if extension == "toml"@ {
        Language::Toml
    } else if is_one_of(extension, seq!["ini"@, "conf"@, "cfg"@, "properties"@, "env"@]) {
        Language::Conf
    } else {
        Language::Plain
    }
}

/// Start and end of the first word from `at` on.
pub open spec fn next_word(text: Seq<char>, at: int) -> Option<(int, int)> {
    let start = white_end(text, at, true);
    if start < text.len() {
        Some((start, white_end(text, start, false)))
    } else {
        None
    }
}

/// The word that names the interpreter in a line: the first one, or the one
/// after it when the first runs `env`.
pub open spec fn interpreter(text: Seq<char>) -> Option<Seq<char>> {
    match next_word(text, 0) {
        None => None,
        Some((start, end)) => {
            let first = text.subrange(start, end);
            if leaf(first, set!['/']) == "env"@ {
                match next_word(text, end) {
                    None => None,
                    Some((start, end)) => Some(text.subrange(start, end)),
                }
            } else {
                Some(first)
            }
        },
    }
}

/// The language that a `#!` line names.
pub open spec fn shebang_language(line: Seq<char>) -> Language {
    if "#!"@.is_prefix_of(line) {
        match interpreter(line.skip(2)) {
            Some(word) if "sh"@.is_suffix_of(leaf(word, set!['/'])) => Language::Shell,
            _ => Language::Plain,
        }
    } else {
        Language::Plain
    }
}

/// The language of a file: by its whole name, by its extension, and for a name
/// without one by its first line.
pub open spec fn detected(name: Seq<char>, first_line: Seq<char>) -> Language {
    let name = lowered_text(leaf(name, name_separators()));
    match named_language(name) {
        Some(language) => language,
        None => if name.contains('.') && name[0] != '.' {
            extension_language(leaf(name, set!['.']))
        } else {
            shebang_language(first_line)
        },
    }
}

/// Where the last component of a path starts.
fn find_leaf(path: &Vec<char>, a: char, b: char) -> (start: usize)
    ensures
        start == leaf_start(path@, set![a, b]),
        start <= path@.len(),
{
    let ghost separators = set![a, b];
    let mut start: usize = path.len();
    proof {
        assert(path@.take(start as int) =~= path@);
    }
    while start > 0 && path[start - 1] != a && path[start - 1] != b
        invariant
            start <= path@.len(),
            separators == set![a, b],
            leaf_start(path@.take(start as int), separators) == leaf_start(path@, separators),
        decreases start,
    {
        proof {
            assert(path@.take(start as int).drop_last() =~= path@.take(start - 1));
            assert(path@.take(start as int).last() == path@[start - 1]);
        }
        start -= 1;
    }
    proof {
        if start > 0 {
            assert(path@.take(start as int).last() == path@[start - 1]);
        }
    }
    start
}

proof fn lemma_leaf_start(path: Seq<char>, separators: Set<char>)
    ensures
        0 <= leaf_start(path, separators) <= path.len(),
        (leaf_start(path, separators) == 0) ==> forall|i: int| 0 <= i < path.len() ==> !separators.contains(#[trigger] path[i]),
        leaf_start(path, separators) > 0 ==> separators.contains(path[leaf_start(path, separators) - 1]),
    decreases path.len(),
{
    if path.len() > 0 && !separators.contains(path.last()) {
        lemma_leaf_start(path.drop_last(), separators);
        assert forall|i: int| leaf_start(path, separators) == 0 && 0 <= i < path.len() implies !separators.contains(#[trigger] path[i]) by {
            if i < path.len() - 1 {
                assert(path.drop_last()[i] == path[i]);
            }
        }
    }
}

/// The last component of a path.
fn take_leaf(path: &Vec<char>, a: char, b: char) -> (name: Vec<char>)
    ensures
        name@ == leaf(path@, set![a, b]),
{
    let start: usize = find_leaf(path, a, b);
    copy_from(path, start)
}

/// The characters from `start` on.
fn copy_from(chars: &Vec<char>, start: usize) -> (rest: Vec<char>)
    requires
        start <= chars@.len(),
    ensures
        rest@ == chars@.skip(start as int),
{
    copy_range(chars, start, chars.len())
}

/// The characters from `start` to `end`.
fn copy_range(chars: &Vec<char>, start: usize, end: usize) -> (part: Vec<char>)
    requires
        start <= end <= chars@.len(),
    ensures
        part@ == chars@.subrange(start as int, end as int),
{
    let mut part: Vec<char> = Vec::new();
    let mut i: usize = start;
    while i < end
        invariant
            start <= i <= end <= chars@.len(),
            part@ == chars@.subrange(start as int, i as int),
        decreases end - i,
    {
        part.push(chars[i]);
        proof {
            assert(part@ =~= chars@.subrange(start as int, i + 1));
        }
        i += 1;
    }
    part
}

/// Start and end of the first word from `at` on.
fn find_word(chars: &Vec<char>, at: usize) -> (word: Option<(usize, usize)>)
    requires
        at <= chars@.len(),
    ensures
        match word {
            Some((start, end)) => next_word(chars@, at as int) == Some((start as int, end as int)) && start <= end
                && end <= chars@.len(),
            None => next_word(chars@, at as int) is None,
        },
{
    let mut start: usize = at;
    while start < chars.len() && chars[start].is_whitespace()
        invariant
            at <= start <= chars@.len(),
            white_end(chars@, at as int, true) == white_end(chars@, start as int, true),
        decreases chars@.len() - start,
    {
        start += 1;
    }
    if start >= chars.len() {
        return None;
    }
    let mut end: usize = start;
    while end < chars.len() && !chars[end].is_whitespace()
        invariant
            start <= end <= chars@.len(),
            white_end(chars@, start as int, false) == white_end(chars@, end as int, false),
        decreases chars@.len() - end,
    {
        end += 1;
    }
    Some((start, end))
}

/// Whether a text is among some texts.
fn one_of(text: &str, texts: &Vec<&str>) -> (found: bool)
    ensures
        found == is_one_of(text@, Seq::new(texts@.len(), |i: int| texts@[i]@)),
{
    let ghost all = Seq::new(texts@.len(), |i: int| texts@[i]@);
    let mut i: usize = 0;
    while i < texts.len()
        invariant
            i <= texts@.len(),
            all == Seq::new(texts@.len(), |i: int| texts@[i]@),
            forall|k: int| 0 <= k < i ==> text@ != #[trigger] all[k],
        decreases texts@.len() - i,
    {
        if same(text, texts[i]) {
            assert(text@ == all[i as int]);
            return true;
        }
        i += 1;
    }
    false
}

impl Language {
    /// The language of a file called `name` whose first line is `first_line`.
    ///
    /// The whole name is more certain than the extension, and the extension more
    /// certain than the shebang, which is read only for a name without one.
    pub fn detect(name: &str, first_line: &str) -> (language: Language)
        ensures
            language == detected(name@, first_line@),
    {
        // A caller with a whole path is not misled by a directory's name.
        let path = to_chars(name);
        let leaf_chars = take_leaf(&path, '/', '\\');
        let mut lower_chars: Vec<char> = Vec::new();
        let mut i: usize = 0;
        while i < leaf_chars.len()
            invariant
                i <= leaf_chars@.len(),
                lower_chars@ == lowered_text(leaf_chars@).take(i as int),
            decreases leaf_chars@.len() - i,
        {
            lower_chars.push(lower(leaf_chars[i]));
            proof {
                assert(lower_chars@ =~= lowered_text(leaf_chars@).take(i + 1));
            }
            i += 1;
        }
        proof {
            assert(lower_chars@ =~= lowered_text(leaf_chars@));
        }

        if let Some(language) = Language::by_name(&lower_chars) {
            return language;
        }
        // A leading dot is not an extension: `.bashrc` would split into an empty
        // stem and `bashrc`.
        let dot: usize = find_leaf(&lower_chars, '.', '.');
        proof {
            assert(set!['.', '.'] =~= set!['.']);
            lemma_leaf_start(lower_chars@, set!['.']);
            if dot > 0 {
                assert(lower_chars@[dot - 1] == '.');
            }
        }
        if dot > 0 && lower_chars[0] != '.' {
            let extension = from_chars(&lower_chars, dot, lower_chars.len());
            return Language::by_extension(extension.as_str());
        }
        Language::by_shebang(first_line)
    }

    /// The language of a name that carries no usable extension.
    fn by_name(lower: &Vec<char>) -> (language: Option<Language>)
        ensures
            language == named_language(lower@),
    {
        let name = from_chars(lower, 0, lower.len());
        assert(name@ =~= lower@);
        if same(name.as_str(), "dockerfile") || same(name.as_str(), "containerfile") || starts_with(
            lower,
            "dockerfile.",
        ) || ends_with(lower, ".dockerfile") {
            return Some(Language::Dockerfile);
        }
        // The rc files a login shell reads. They are shell scripts, whatever else
        // they look like.
        let shells: Vec<&str> = vec![
            ".bashrc",
            ".bash_profile",
            ".bash_login",
            ".bash_logout",
            ".profile",
            ".zshrc",
            ".zshenv",
            ".zprofile",
            ".zlogin",
            ".zlogout",
            ".kshrc",
            ".shrc",
        ];
        assert(Seq::new(shells@.len(), |i: int| shells@[i]@) =~= shell_names());
        if one_of(name.as_str(), &shells) {
            return Some(Language::Shell);
        }
        // `.env`, and the per-stage files that live beside it.
        if same(name.as_str(), ".env") || starts_with(lower, ".env.") {
            return Some(Language::Conf);
        }
        let confs: Vec<&str> = vec!["sshd_config", "ssh_config", ".gitconfig", ".npmrc", ".editorconfig"];
        assert(Seq::new(confs@.len(), |i: int| confs@[i]@) =~= conf_names());
        if one_of(name.as_str(), &confs) {
            return Some(Language::Conf);
        }
        None
    }

    /// The language an extension names, [`Language::Plain`] when none does.
    fn by_extension(extension: &str) -> (language: Language)
        ensures
            language == extension_language(extension@),
    {
        let shells: Vec<&str> = vec!["sh", "bash", "zsh", "ksh", "ash", "mksh"];
        assert(Seq::new(shells@.len(), |i: int| shells@[i]@) =~= seq![
            "sh"@,
            "bash"@,
            "zsh"@,
            "ksh"@,
            "ash"@,
            "mksh"@,
        ]);
        if one_of(extension, &shells) {
            return Language::Shell;
        }
        let yamls: Vec<&str> = vec!["yml", "yaml"];
        assert(Seq::new(yamls@.len(), |i: int| yamls@[i]@) =~= seq!["yml"@, "yaml"@]);
        if one_of(extension, &yamls) {
            return Language::Yaml;
        }
        if same(extension, "json") {
            return Language::Json;
        }
        if same(extension, "toml") {
            return Language::Toml;
        }
        let confs: Vec<&str> = vec!["ini", "conf", "cfg", "properties", "env"];
        assert(Seq::new(confs@.len(), |i: int| confs@[i]@) =~= seq![
            "ini"@,
            "conf"@,
            "cfg"@,
            "properties"@,
            "env"@,
        ]);
        if one_of(extension, &confs) {
            return Language::Conf;
        }
        Language::Plain
    }

    /// The language a `#!` line names, [`Language::Plain`] when it names none.
    ///
    /// Anything ending in `sh` is treated as a shell.
    fn by_shebang(first_line: &str) -> (language: Language)
        ensures
            language == shebang_language(first_line@),
    {
        let line = to_chars(first_line);
        if !starts_with(&line, "#!") {
            return Language::Plain;
        }
        proof {
            reveal_strlit("#!");
            assert(set!['/', '/'] =~= set!['/']);
        }
        let rest = copy_from(&line, 2);
        let (start, end) = match find_word(&rest, 0) {
            Some(word) => word,
            None => {
                return Language::Plain;
            },
        };
        let mut interpreter = copy_range(&rest, start, end);
        // `#!/usr/bin/env bash` names the interpreter in the next word.
        let program = take_leaf(&interpreter, '/', '/');
        let program_text = from_chars(&program, 0, program.len());
        assert(program_text@ =~= program@);
        if same(program_text.as_str(), "env") {
            let (start, end) = match find_word(&rest, end) {
                Some(word) => word,
                None => {
                    return Language::Plain;
                },
            };
            interpreter = copy_range(&rest, start, end);
        }
        let name = take_leaf(&interpreter, '/', '/');
        if ends_with(&name, "sh") {
            Language::Shell
        } else {
            Language::Plain
        }
    }

    /// What the comment toggle puts at the head of a line, when the format has
    /// such a thing: `#` for everything except JSON.
    pub fn line_comment(self) -> (mark: Option<&'static str>)
        ensures
            match mark {
                Some(mark) => self != Language::Json && mark@ == "#"@,
                None => self == Language::Json,
            },
    {
        match self {
            Language::Json => None,
            _ => Some("#"),
        }
    }

    /// Whether a line of this language can leave something open for the next one
    /// to finish.
    pub fn carries_state(self) -> (carries: bool)
        ensures
            carries == self.can_carry(),
    {
        match self {
            // A plain line is one run; a JSON string may not contain a newline;
            // an ini or `.env` line is a mapping and ends with itself.
            Language::Plain | Language::Json | Language::Conf => false,
            // Quotes and heredocs; block scalars; multi-line strings; a `\`
            // continuation.
            Language::Shell | Language::Yaml | Language::Toml | Language::Dockerfile => true,
        }
    }

    /// A line of this language can leave something open.
    pub open spec fn can_carry(self) -> bool {
        self is Shell || self is Yaml || self is Toml || self is Dockerfile
    }
}

/// Directories play no part: a path is recognised by its last component, whichever
/// of the two separators comes before it.
pub proof fn directories_do_not_matter(directory: Seq<char>, name: Seq<char>, first_line: Seq<char>)
    requires
        forall|i: int| 0 <= i < name.len() ==> !name_separators().contains(#[trigger] name[i]),
    ensures
        detected(directory.push('/') + name, first_line) == detected(name, first_line),
        detected(directory.push('\\') + name, first_line) == detected(name, first_line),
{
    lemma_leaf_of_join(directory, '/', name);
    lemma_leaf_of_join(directory, '\\', name);
    lemma_plain_leaf(name);
    assert(leaf(directory.push('/') + name, name_separators()) =~= name);
    assert(leaf(directory.push('\\') + name, name_separators()) =~= name);
    assert(leaf(name, name_separators()) =~= name);
}

proof fn lemma_plain_leaf(name: Seq<char>)
    requires
        forall|i: int| 0 <= i < name.len() ==> !name_separators().contains(#[trigger] name[i]),
    ensures
        leaf_start(name, name_separators()) == 0,
    decreases name.len(),
{
    if name.len() > 0 {
        lemma_plain_leaf(name.drop_last());
    }
}

proof fn lemma_leaf_of_join(directory: Seq<char>, separator: char, name: Seq<char>)
    requires
        name_separators().contains(separator),
        forall|i: int| 0 <= i < name.len() ==> !name_separators().contains(#[trigger] name[i]),
    ensures
        leaf_start(directory.push(separator) + name, name_separators()) == directory.len() + 1,
    decreases name.len(),
{
    let path = directory.push(separator) + name;
    if name.len() == 0 {
        assert(path.last() == separator);
    } else {
        assert(path.drop_last() =~= directory.push(separator) + name.drop_last());
        assert(path.last() == name.last());
        lemma_leaf_of_join(directory, separator, name.drop_last());
    }
}

/// The extensions of every format. Any other extension is plain text.
#[verifier::spinoff_prover]
pub proof fn formats_have_these_extensions(extension: Seq<char>)
    ensures
        extension_language(extension) is Shell <==> extension == "sh"@ || extension == "bash"@ || extension == "zsh"@
            || extension == "ksh"@ || extension == "ash"@ || extension == "mksh"@,
        extension == "yml"@ || extension == "yaml"@ ==> extension_language(extension) is Yaml,
        extension == "json"@ ==> extension_language(extension) is Json,
        extension == "toml"@ ==> extension_language(extension) is Toml,
        extension == "ini"@ || extension == "conf"@ || extension == "cfg"@ || extension == "properties"@ || extension
            == "env"@ ==> extension_language(extension) is Conf,
        extension_language(extension) is Yaml ==> extension == "yml"@ || extension == "yaml"@,
        extension_language(extension) is Json ==> extension == "json"@,
        extension_language(extension) is Toml ==> extension == "toml"@,
        extension_language(extension) is Conf ==> extension == "ini"@ || extension == "conf"@ || extension == "cfg"@
            || extension == "properties"@ || extension == "env"@,
        !(extension_language(extension) is Dockerfile),
{
    reveal_strlit("sh");
    reveal_strlit("bash");
    reveal_strlit("zsh");
    reveal_strlit("ksh");
    reveal_strlit("ash");
    reveal_strlit("mksh");
    reveal_strlit("yml");
    reveal_strlit("yaml");
    reveal_strlit("json");
    reveal_strlit("toml");
    reveal_strlit("ini");
    reveal_strlit("conf");
    reveal_strlit("cfg");
    reveal_strlit("properties");
    reveal_strlit("env");
    let shells = seq!["sh"@, "bash"@, "zsh"@, "ksh"@, "ash"@, "mksh"@];
    let yamls = seq!["yml"@, "yaml"@];
    let confs = seq!["ini"@, "conf"@, "cfg"@, "properties"@, "env"@];
    assert(shells.len() == 6 && yamls.len() == 2 && confs.len() == 5);
    assert(is_one_of(extension, shells) <==> extension == "sh"@ || extension == "bash"@ || extension == "zsh"@
        || extension == "ksh"@ || extension == "ash"@ || extension == "mksh"@) by {
        assert(shells[0] == "sh"@ && shells[1] == "bash"@ && shells[2] == "zsh"@ && shells[3] == "ksh"@ && shells[4]
            == "ash"@ && shells[5] == "mksh"@);
    }
    assert(is_one_of(extension, yamls) <==> extension == "yml"@ || extension == "yaml"@) by {
        assert(yamls[0] == "yml"@ && yamls[1] == "yaml"@);
    }
    assert(is_one_of(extension, confs) <==> extension == "ini"@ || extension == "conf"@ || extension == "cfg"@
        || extension == "properties"@ || extension == "env"@) by {
        assert(confs[0] == "ini"@ && confs[1] == "conf"@ && confs[2] == "cfg"@ && confs[3] == "properties"@
            && confs[4] == "env"@);
    }
    assert("yml"@.last() == 'l' && "yaml"@.last() == 'l' && "toml"@.last() == 'l');
    assert("sh"@.last() == 'h' && "bash"@.last() == 'h' && "zsh"@.last() == 'h' && "ksh"@.last() == 'h'
        && "ash"@.last() == 'h' && "mksh"@.last() == 'h');
    assert("json"@.last() == 'n');
    assert("toml"@[0] == 't' && "yml"@[0] == 'y' && "yaml"@[0] == 'y');
    assert("ini"@.last() == 'i' && "conf"@.last() == 'f' && "cfg"@.last() == 'g' && "properties"@.last() == 's'
        && "env"@.last() == 'v');
}

/// The files that are known by their whole names.
#[verifier::spinoff_prover]
pub proof fn files_are_known_by_these_names(name: Seq<char>)
    ensures
        named_language(name) is Some ==> {
            let language = named_language(name)->0;
            language is Dockerfile || language is Shell || language is Conf
        },
        name == "dockerfile"@ || name == "containerfile"@ ==> named_language(name) == Some(Language::Dockerfile),
        "dockerfile."@.is_prefix_of(name) || ".dockerfile"@.is_suffix_of(name) ==> named_language(name) == Some(
            Language::Dockerfile,
        ),
        named_language(name) == Some(Language::Dockerfile) ==> name == "dockerfile"@ || name == "containerfile"@
            || "dockerfile."@.is_prefix_of(name) || ".dockerfile"@.is_suffix_of(name),
        named_language(name) == Some(Language::Shell) ==> name == ".bashrc"@ || name == ".bash_profile"@ || name
            == ".bash_login"@ || name == ".bash_logout"@ || name == ".profile"@ || name == ".zshrc"@ || name
            == ".zshenv"@ || name == ".zprofile"@ || name == ".zlogin"@ || name == ".zlogout"@ || name == ".kshrc"@
            || name == ".shrc"@,
        named_language(name) is None ==> name != ".bashrc"@ && name != ".bash_profile"@ && name != ".bash_login"@
            && name != ".bash_logout"@ && name != ".profile"@ && name != ".zshrc"@ && name != ".zshenv"@ && name
            != ".zprofile"@ && name != ".zlogin"@ && name != ".zlogout"@ && name != ".kshrc"@ && name != ".shrc"@,
        named_language(name) == Some(Language::Conf) ==> name == ".env"@ || ".env."@.is_prefix_of(name) || name
            == "sshd_config"@ || name == "ssh_config"@ || name == ".gitconfig"@ || name == ".npmrc"@ || name
            == ".editorconfig"@,
        named_language(name) is None ==> name != ".env"@ && !".env."@.is_prefix_of(name) && name != "sshd_config"@
            && name != "ssh_config"@ && name != ".gitconfig"@ && name != ".npmrc"@ && name != ".editorconfig"@,
{
    let shells = shell_names();
    let confs = conf_names();
    assert(shells.len() == 12 && confs.len() == 5);
    assert(is_one_of(name, shells) <==> name == ".bashrc"@ || name == ".bash_profile"@ || name == ".bash_login"@ || name
        == ".bash_logout"@ || name == ".profile"@ || name == ".zshrc"@ || name == ".zshenv"@ || name == ".zprofile"@
        || name == ".zlogin"@ || name == ".zlogout"@ || name == ".kshrc"@ || name == ".shrc"@) by {
        assert(shells[0] == ".bashrc"@ && shells[1] == ".bash_profile"@ && shells[2] == ".bash_login"@ && shells[3]
            == ".bash_logout"@ && shells[4] == ".profile"@ && shells[5] == ".zshrc"@ && shells[6] == ".zshenv"@
            && shells[7] == ".zprofile"@ && shells[8] == ".zlogin"@ && shells[9] == ".zlogout"@ && shells[10]
            == ".kshrc"@ && shells[11] == ".shrc"@);
    }
    assert(is_one_of(name, confs) <==> name == "sshd_config"@ || name == "ssh_config"@ || name == ".gitconfig"@ || name
        == ".npmrc"@ || name == ".editorconfig"@) by {
        assert(confs[0] == "sshd_config"@ && confs[1] == "ssh_config"@ && confs[2] == ".gitconfig"@ && confs[3]
            == ".npmrc"@ && confs[4] == ".editorconfig"@);
    }
}

/// A name that is not known as a whole is known by what comes after its last dot; one
/// without a dot, or with nothing before it, by the first line of the file.
pub proof fn names_are_told_by_their_last_dot(stem: Seq<char>, extension: Seq<char>, first_line: Seq<char>)
    requires
        stem.len() > 0,
        stem[0] != '.',
        forall|i: int|
            0 <= i < stem.len() ==> !name_separators().contains(#[trigger] stem[i]) && !('A' <= stem[i] <= 'Z'),
        forall|i: int|
            0 <= i < extension.len() ==> !name_separators().contains(#[trigger] extension[i]) && !('A' <= extension[i]
                <= 'Z') && extension[i] != '.',
        named_language(stem.push('.') + extension) is None,
    ensures
        detected(stem.push('.') + extension, first_line) == extension_language(extension),
        !stem.contains('.') && named_language(stem) is None ==> detected(stem, first_line) == shebang_language(
            first_line,
        ),
        !stem.contains('.') ==> (named_language(stem) matches Some(language) ==> detected(stem, first_line) == language),
{
    let name = stem.push('.') + extension;
    assert forall|i: int| 0 <= i < name.len() implies !name_separators().contains(#[trigger] name[i]) by {
        if i < stem.len() {
            assert(name[i] == stem[i]);
        } else if i > stem.len() {
            assert(name[i] == extension[i - stem.len() - 1]);
        } else {
            assert(name[i] == '.');
        }
    }
    lemma_plain_leaf(name);
    lemma_plain_leaf(stem);
    assert(leaf(name, name_separators()) =~= name);
    assert(leaf(stem, name_separators()) =~= stem);
    assert(lowered_text(name) =~= name) by {
        assert forall|i: int| 0 <= i < name.len() implies lowered_text(name)[i] == name[i] by {
            if i < stem.len() {
                assert(name[i] == stem[i]);
            } else if i > stem.len() {
                assert(name[i] == extension[i - stem.len() - 1]);
            }
        }
    }
    assert(lowered_text(stem) =~= stem);
    assert(name[stem.len() as int] == '.');
    assert(name[0] == stem[0]);
    lemma_last_part(stem, '.', extension, set!['.']);
    assert(leaf(name, set!['.']) =~= extension);
}

/// What comes after the last separator is the last part.
proof fn lemma_last_part(before: Seq<char>, separator: char, part: Seq<char>, separators: Set<char>)
    requires
        separators.contains(separator),
        forall|i: int| 0 <= i < part.len() ==> !separators.contains(#[trigger] part[i]),
    ensures
        leaf_start(before.push(separator) + part, separators) == before.len() + 1,
    decreases part.len(),
{
    let whole = before.push(separator) + part;
    if part.len() == 0 {
        assert(whole.last() == separator);
    } else {
        assert(whole.last() == part.last());
        assert(!separators.contains(part[part.len() - 1]));
        assert(whole.drop_last() =~= before.push(separator) + part.drop_last());
        lemma_last_part(before, separator, part.drop_last(), separators);
    }
}

proof fn lemma_part_alone(part: Seq<char>, separators: Set<char>)
    requires
        forall|i: int| 0 <= i < part.len() ==> !separators.contains(#[trigger] part[i]),
    ensures
        leaf_start(part, separators) == 0,
    decreases part.len(),
{
    if part.len() > 0 {
        assert(!separators.contains(part[part.len() - 1]));
        lemma_part_alone(part.drop_last(), separators);
    }
}

proof fn lemma_dark_end(text: Seq<char>, at: int, end: int)
    requires
        0 <= at <= end <= text.len(),
        forall|i: int| at <= i < end ==> !is_white(#[trigger] text[i]),
        end < text.len() ==> is_white(text[end]),
    ensures
        white_end(text, at, false) == end,
    decreases end - at,
{
    if at < end {
        assert(!is_white(text[at]));
        lemma_dark_end(text, at + 1, end);
    }
}

/// A script is one of a shell when the interpreter that its first line names ends in
/// `sh`, wherever that lies. An interpreter that `env` looks up is the word after it.
pub proof fn scripts_name_their_shell(directory: Seq<char>, program: Seq<char>, argument: Seq<char>)
    requires
        program.len() > 0,
        argument.len() > 0,
        forall|i: int| 0 <= i < directory.len() ==> !is_white(#[trigger] directory[i]),
        forall|i: int| 0 <= i < program.len() ==> !is_white(#[trigger] program[i]) && program[i] != '/',
        forall|i: int| 0 <= i < argument.len() ==> !is_white(#[trigger] argument[i]) && argument[i] != '/',
    ensures
        ({
            let path = directory.push('/') + program;
            &&& program != "env"@ ==> (shebang_language(seq!['#', '!'] + path) is Shell <==> "sh"@.is_suffix_of(program))
            &&& program != "env"@ ==> (shebang_language(seq!['#', '!'] + path + seq![' '] + argument) is Shell
                <==> "sh"@.is_suffix_of(program))
            &&& program == "env"@ ==> (shebang_language(seq!['#', '!'] + path + seq![' '] + argument) is Shell
                <==> "sh"@.is_suffix_of(argument))
            &&& shebang_language(path) is Plain || path[0] == '#'
        }),
{
    reveal_strlit("#!");
    let path = directory.push('/') + program;
    let sole = seq!['#', '!'] + path;
    let both = seq!['#', '!'] + path + seq![' '] + argument;
    let text = path + seq![' '] + argument;
    assert("#!"@ =~= seq!['#', '!']);
    assert("#!"@ =~= sole.take(2));
    assert("#!"@ =~= both.take(2));
    assert("#!"@.is_prefix_of(sole) && "#!"@.is_prefix_of(both));
    assert(sole.skip(2) =~= path);
    assert(both.skip(2) =~= text);
    assert forall|i: int| 0 <= i < path.len() implies !is_white(#[trigger] path[i]) by {
        if i < directory.len() {
            assert(path[i] == directory[i]);
        } else if i > directory.len() {
            assert(path[i] == program[i - directory.len() - 1]);
        } else {
            assert(path[i] == '/');
        }
    }
    lemma_dark_end(path, 0, path.len() as int);
    assert(!is_white(path[0]));
    assert(next_word(path, 0) == Some((0int, path.len() as int)));
    assert(path.subrange(0, path.len() as int) =~= path);
    lemma_last_part(directory, '/', program, set!['/']);
    assert(leaf(path, set!['/']) =~= program);
    assert forall|i: int| 0 <= i < path.len() implies !is_white(#[trigger] text[i]) by {
        assert(text[i] == path[i]);
    }
    assert(text[path.len() as int] == ' ');
    assert(is_white(' '));
    lemma_dark_end(text, 0, path.len() as int);
    assert(text.subrange(0, path.len() as int) =~= path);
    assert(next_word(text, 0) == Some((0int, path.len() as int)));
    let from = path.len() + 1;
    assert forall|i: int| from <= i < text.len() implies !is_white(#[trigger] text[i]) by {
        assert(text[i] == argument[i - from]);
    }
    lemma_dark_end(text, from as int, text.len() as int);
    assert(text[from as int] == argument[0]);
    reveal_with_fuel(white_end, 3);
    assert(white_end(text, path.len() as int, true) == from);
    assert(next_word(text, path.len() as int) == Some((from as int, text.len() as int)));
    assert(text.subrange(from as int, text.len() as int) =~= argument);
    lemma_part_alone(argument, set!['/']);
    assert(leaf(argument, set!['/']) =~= argument);
    if "#!"@.is_prefix_of(path) {
        assert(path[0] == "#!"@[0]);
    }
}

/// Only these formats leave something open for the next line.
pub proof fn some_formats_carry(language: Language)
    ensures
        language.can_carry() <==> language is Shell || language is Yaml || language is Toml || language is Dockerfile,
        !Language::Plain.can_carry() && !Language::Json.can_carry() && !Language::Conf.can_carry(),
{
}

} // verus!
