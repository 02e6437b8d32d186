//! Paths as text: where the settings file and the resource directories are looked for.

use crate::text::{collect_chars, push_char, same_text, string_from_chars, texts};
use vstd::prelude::*;
use vstd::string::StringExecFns;

verus! {

/// The name of the settings file.
pub const CONFIG_FILE: &'static str = "config.toml";

/// The name of the directory of the resources.
pub const RESOURCES_DIR: &'static str = "resources";

/// The name of the directory that the build tool puts programs under.
pub const TARGET_DIR: &'static str = "target";

/// The index of the last `c` in `s`, or -1 where it has none.
pub open spec fn last_index(s: Seq<char>, c: char) -> int
    decreases s.len(),
{
    if s.len() == 0 {
        -1
    } else if s.last() == c {
        s.len() - 1
    } else {
        last_index(s.drop_last(), c)
    }
}

/// `name` below the directory `base`.
pub open spec fn joined(base: Seq<char>, name: Seq<char>, separator: char) -> Seq<char> {
    if base.len() == 0 {
        name
    } else if base.last() == separator {
        base + name
    } else {
        base.push(separator) + name
    }
}

/// The directory that holds `path`: what stands before its last separator, the root where
/// that separator is the first character, and nothing for a path without a separator or for
/// the root itself.
pub open spec fn parent_of(path: Seq<char>, separator: char) -> Option<Seq<char>> {
    let at = last_index(path, separator);
    if at < 0 || path.len() == 1 {
        None
    } else if at == 0 {
        Some(seq![separator])
    } else {
        Some(path.take(at))
    }
}

/// The last name of `path`: what stands behind its last separator.
pub open spec fn name_of(path: Seq<char>, separator: char) -> Seq<char> {
    path.skip(last_index(path, separator) + 1)
}

/// The names of `path`: the runs of characters between separators.
pub open spec fn names_of(path: Seq<char>, separator: char) -> Seq<Seq<char>>
    decreases path.len(),
{
    if path.len() == 0 {
        Seq::empty()
    } else if path.last() == separator {
        names_of(path.drop_last(), separator)
    } else if path.len() >= 2 && path[path.len() - 2] != separator {
        let before = names_of(path.drop_last(), separator);
        before.drop_last().push(before.last().push(path.last()))
    } else {
        names_of(path.drop_last(), separator).push(seq![path.last()])
    }
}

/// Whether `path` lies in or below `base`: both begin at the root or neither does, and the
/// names of `base` are the first names of `path`.
pub open spec fn lies_within(path: Seq<char>, base: Seq<char>, separator: char) -> bool {
    &&& (path.len() > 0 && path[0] == separator) == (base.len() > 0 && base[0] == separator)
    &&& names_of(base, separator).is_prefix_of(names_of(path, separator))
}

/// `name` below the directory `base`.
pub fn join_path(base: &str, name: &str, separator: char) -> (r: String)
    ensures
        r@ == joined(base@, name@, separator),
{
    let chars = collect_chars(base);
    let mut r = String::from_str(base);
    if chars.len() > 0 && chars[chars.len() - 1] != separator {
        push_char(&mut r, separator);
    }
    r.append(name);
    proof {
        if base@.len() == 0 {
            assert(r@ =~= name@);
        }
    }
    r
}

/// The index of the last `c` in `chars`.
fn find_last(chars: &Vec<char>, c: char) -> (r: Option<usize>)
    ensures
        match r {
            Some(at) => at == last_index(chars@, c) && at < chars.len(),
            None => last_index(chars@, c) == -1,
        },
{
    let mut i: usize = chars.len();
    assert(chars@.take(i as int) =~= chars@);
    while i > 0
        invariant
            i <= chars.len(),
            last_index(chars@, c) == last_index(chars@.take(i as int), c),
        decreases i,
    {
        assert(chars@.take(i as int).last() == chars@[i - 1]);
        if chars[i - 1] == c {
            return Some(i - 1);
        }
        assert(chars@.take(i as int).drop_last() =~= chars@.take(i - 1));
        i = i - 1;
    }
    None
}

/// The directory that holds `path`.
pub fn parent_dir(path: &str, separator: char) -> (r: Option<String>)
    ensures
        match r {
            Some(dir) => parent_of(path@, separator) == Some(dir@),
            None => parent_of(path@, separator) is None,
        },
{
    let chars = collect_chars(path);
    match find_last(&chars, separator) {
        None => None,
        Some(at) => {
            if chars.len() == 1 {
                None
            } else if at == 0 {
                let mut root = String::new();
                push_char(&mut root, separator);
                assert(root@ =~= seq![separator]);
                Some(root)
            } else {
                let dir = string_from_chars(&chars, 0, at);
                Some(dir)
            }
        },
    }
}

/// The last name of `path`.
pub fn file_name(path: &str, separator: char) -> (r: String)
    ensures
        r@ == name_of(path@, separator),
{
    let chars = collect_chars(path);
    let from: usize = match find_last(&chars, separator) {
        Some(at) => at + 1,
        None => 0,
    };
    let name = string_from_chars(&chars, from, chars.len());
    assert(name@ =~= name_of(path@, separator));
    name
}

/// The names of `chars`.
fn names(chars: &Vec<char>, separator: char) -> (r: Vec<String>)
    ensures
        r@.len() == names_of(chars@, separator).len(),
        forall|i: int| 0 <= i < r@.len() ==> (#[trigger] r@[i])@ == names_of(chars@, separator)[i],
{
    let mut r: Vec<String> = Vec::new();
    let mut start: usize = 0;
    let mut i: usize = 0;
    assert(chars@.take(0) =~= Seq::<char>::empty());
    while i < chars.len()
        invariant
            start <= i <= chars.len(),
            start < i ==> chars@[i - 1] != separator,
            start == i ==> i == 0 || chars@[i - 1] == separator,
            names_of(chars@.take(i as int), separator).len() == r@.len() + if start < i {
                1int
            } else {
                0int
            },
            forall|j: int|
                0 <= j < r@.len() ==> (#[trigger] r@[j])@ == names_of(
                    chars@.take(i as int),
                    separator,
                )[j],
            start < i ==> names_of(chars@.take(i as int), separator).last() == chars@.subrange(
                start as int,
                i as int,
            ),
        decreases chars.len() - i,
    {
        let ghost before = chars@.take(i as int);
        let ghost after = chars@.take(i + 1);
        proof {
            assert(after.drop_last() =~= before);
            assert(after.last() == chars@[i as int]);
            if i > 0 {
                assert(after[after.len() - 2] == chars@[i - 1]);
            }
        }
        if chars[i] == separator {
            if start < i {
                let name = string_from_chars(chars, start, i);
                r.push(name);
            }
            start = i + 1;
        } else {
            proof {
                if start < i {
                    assert(chars@.subrange(start as int, i + 1) =~= chars@.subrange(
                        start as int,
                        i as int,
                    ).push(chars@[i as int]));
                } else {
                    assert(chars@.subrange(start as int, i + 1) =~= seq![chars@[i as int]]);
                }
            }
        }
        i = i + 1;
    }
    assert(chars@.take(i as int) =~= chars@);
    if start < i {
        let name = string_from_chars(chars, start, i);
        r.push(name);
    }
    r
}

/// Whether `path` lies in or below `base`.
pub fn path_within(path: &str, base: &str, separator: char) -> (r: bool)
    ensures
        r == lies_within(path@, base@, separator),
{
    let p = collect_chars(path);
    let b = collect_chars(base);
    let p_rooted = p.len() > 0 && p[0] == separator;
    let b_rooted = b.len() > 0 && b[0] == separator;
    if p_rooted != b_rooted {
        return false;
    }
    let pn = names(&p, separator);
    let bn = names(&b, separator);
    let ghost want = names_of(base@, separator);
    let ghost have = names_of(path@, separator);
    if bn.len() > pn.len() {
        return false;
    }
    let mut i: usize = 0;
    while i < bn.len()
        invariant
            i <= bn.len() <= pn.len(),
            want == names_of(base@, separator),
            have == names_of(path@, separator),
            (path@.len() > 0 && path@[0] == separator) == (base@.len() > 0 && base@[0]
                == separator),
            bn@.len() == want.len(),
            pn@.len() == have.len(),
            forall|j: int| 0 <= j < bn@.len() ==> (#[trigger] bn@[j])@ == want[j],
            forall|j: int| 0 <= j < pn@.len() ==> (#[trigger] pn@[j])@ == have[j],
            forall|j: int| 0 <= j < i ==> want[j] == have[j],
        decreases bn.len() - i,
    {
        if !same_text(bn[i].as_str(), pn[i].as_str()) {
            assert(bn@[i as int]@ == want[i as int] && pn@[i as int]@ == have[i as int]);
            assert(want[i as int] != have.subrange(0, want.len() as int)[i as int]);
            return false;
        }
        assert(bn@[i as int]@ == want[i as int] && pn@[i as int]@ == have[i as int]);
        i = i + 1;
    }
    assert(want =~= have.subrange(0, want.len() as int));
    true
}

/// The name of the settings directory below the user's configuration directory.
pub const CONFIG_DIR: &'static str = "suribrows";

/// The name of the settings directory below the application data directory of Windows.
pub const CONFIG_DIR_WINDOWS: &'static str = "SuriBrows";

/// The user's configuration directory below the home directory.
pub const HOME_CONFIG: &'static str = "/.config";

/// The text of an optional string.
pub open spec fn text_of(s: Option<&str>) -> Option<Seq<char>> {
    match s {
        Some(s) => Some(s@),
        None => None,
    }
}

/// The directory of the settings: on Windows `SuriBrows` below the application data
/// directory; elsewhere `suribrows` below the configuration directory, which is the one
/// named, or `.config` below the home directory.
pub open spec fn config_dir_of(
    windows: bool,
    appdata: Option<Seq<char>>,
    xdg_config_home: Option<Seq<char>>,
    home: Option<Seq<char>>,
    separator: char,
) -> Option<Seq<char>> {
    if windows {
        match appdata {
            Some(dir) => Some(joined(dir, CONFIG_DIR_WINDOWS@, separator)),
            None => None,
        }
    } else {
        match xdg_config_home {
            Some(dir) => Some(joined(dir, CONFIG_DIR@, separator)),
            None => match home {
                Some(home) => Some(joined(home + HOME_CONFIG@, CONFIG_DIR@, separator)),
                None => None,
            },
        }
    }
}

/// Where the settings are saved: the settings file in the directory of the settings, or in
/// the current directory where there is none.
pub open spec fn save_path_of(config_dir: Option<Seq<char>>, separator: char) -> Seq<char> {
    match config_dir {
        Some(dir) => joined(dir, CONFIG_FILE@, separator),
        None => joined("."@, CONFIG_FILE@, separator),
    }
}

/// Where the settings file is looked for, in order: the file named outright, the settings
/// file beside the program, the one in the directory of the settings, and the one in the
/// current directory.
pub open spec fn config_places(
    explicit: Option<Seq<char>>,
    exe_dir: Option<Seq<char>>,
    config_dir: Option<Seq<char>>,
    separator: char,
) -> Seq<Seq<char>> {
    let first = match explicit {
        Some(path) => seq![path],
        None => Seq::empty(),
    };
    let second = match exe_dir {
        Some(dir) => seq![joined(dir, CONFIG_FILE@, separator)],
        None => Seq::empty(),
    };
    let third = match config_dir {
        Some(dir) => seq![joined(dir, CONFIG_FILE@, separator)],
        None => Seq::empty(),
    };
    first + second + third + seq![CONFIG_FILE@]
}

/// `dir`, or the directory `leaf` below it where one is asked for.
pub open spec fn below(dir: Seq<char>, leaf: Option<Seq<char>>, separator: char) -> Seq<char> {
    match leaf {
        Some(leaf) => joined(dir, leaf, separator),
        None => dir,
    }
}

/// The directory that holds the program.
pub open spec fn program_dir(exe: Seq<char>, separator: char) -> Seq<char> {
    match parent_of(exe, separator) {
        Some(dir) => dir,
        None => exe,
    }
}

/// The root of the project that built the program: two directories above the program's,
/// where the one above it is named `target`.
pub open spec fn project_root(exe: Seq<char>, separator: char) -> Option<Seq<char>> {
    match parent_of(program_dir(exe, separator), separator) {
        Some(target) => if name_of(target, separator) == TARGET_DIR@ {
            parent_of(target, separator)
        } else {
            None
        },
        None => None,
    }
}

/// Where the resources, or their directory `leaf`, are looked for, in order: in the
/// directory named outright, in `resources` beside the program, in `resources` at the root
/// of the project that built the program, and in `resources` in the current directory.
pub open spec fn resource_places(
    named: Option<Seq<char>>,
    exe: Option<Seq<char>>,
    cwd: Option<Seq<char>>,
    leaf: Option<Seq<char>>,
    separator: char,
) -> Seq<Seq<char>> {
    let first = match named {
        Some(dir) => seq![below(dir, leaf, separator)],
        None => Seq::empty(),
    };
    let second = match exe {
        Some(exe) => seq![
            below(joined(program_dir(exe, separator), RESOURCES_DIR@, separator), leaf, separator),
        ],
        None => Seq::empty(),
    };
    let third = match exe {
        Some(exe) => match project_root(exe, separator) {
            Some(root) => seq![below(joined(root, RESOURCES_DIR@, separator), leaf, separator)],
            None => Seq::empty(),
        },
        None => Seq::empty(),
    };
    let fourth = match cwd {
        Some(dir) => seq![below(joined(dir, RESOURCES_DIR@, separator), leaf, separator)],
        None => Seq::empty(),
    };
    first + second + third + fourth
}

/// The directory of the settings.
pub fn platform_config_dir(
    windows: bool,
    appdata: Option<&str>,
    xdg_config_home: Option<&str>,
    home: Option<&str>,
    separator: char,
) -> (r: Option<String>)
    ensures
        match r {
            Some(dir) => config_dir_of(
                windows,
                text_of(appdata),
                text_of(xdg_config_home),
                text_of(home),
                separator,
            ) == Some(dir@),
            None => config_dir_of(
                windows,
                text_of(appdata),
                text_of(xdg_config_home),
                text_of(home),
                separator,
            ) is None,
        },
{
    if windows {
        match appdata {
            Some(dir) => Some(join_path(dir, CONFIG_DIR_WINDOWS, separator)),
            None => None,
        }
    } else {
        match xdg_config_home {
            Some(dir) => Some(join_path(dir, CONFIG_DIR, separator)),
            None => match home {
                Some(home) => {
                    let mut dir = String::from_str(home);
                    dir.append(HOME_CONFIG);
                    Some(join_path(dir.as_str(), CONFIG_DIR, separator))
                },
                None => None,
            },
        }
    }
}

/// Where the settings are saved.
pub fn save_path(config_dir: Option<&str>, separator: char) -> (path: String)
    ensures
        path@ == save_path_of(text_of(config_dir), separator),
        path@.len() > 0,
{
    proof {
        reveal_strlit("config.toml");
    }
    match config_dir {
        Some(dir) => join_path(dir, CONFIG_FILE, separator),
        None => join_path(".", CONFIG_FILE, separator),
    }
}

/// Where the settings file is looked for, in order.
pub fn find_config_path(
    explicit: Option<&str>,
    exe_dir: Option<&str>,
    config_dir: Option<&str>,
    separator: char,
) -> (places: Vec<String>)
    ensures
        texts(places@) == config_places(
            text_of(explicit),
            text_of(exe_dir),
            text_of(config_dir),
            separator,
        ),
{
    let mut places: Vec<String> = Vec::new();
    match explicit {
        Some(path) => {
            places.push(String::from_str(path));
        },
        None => {},
    }
    match exe_dir {
        Some(dir) => {
            places.push(join_path(dir, CONFIG_FILE, separator));
        },
        None => {},
    }
    match config_dir {
        Some(dir) => {
            places.push(join_path(dir, CONFIG_FILE, separator));
        },
        None => {},
    }
    places.push(String::from_str(CONFIG_FILE));
    assert(texts(places@) =~= config_places(
        text_of(explicit),
        text_of(exe_dir),
        text_of(config_dir),
        separator,
    ));
    places
}

/// `dir`, or the directory `leaf` below it where one is asked for.
fn descend(dir: String, leaf: Option<&str>, separator: char) -> (r: String)
    ensures
        r@ == below(dir@, text_of(leaf), separator),
{
    match leaf {
        Some(leaf) => join_path(dir.as_str(), leaf, separator),
        None => dir,
    }
}

/// Where the resources, or their directory `leaf`, are looked for, in order.
pub fn resources_dir_path(
    named: Option<&str>,
    exe: Option<&str>,
    cwd: Option<&str>,
    leaf: Option<&str>,
    separator: char,
) -> (places: Vec<String>)
    ensures
        texts(places@) == resource_places(
            text_of(named),
            text_of(exe),
            text_of(cwd),
            text_of(leaf),
            separator,
        ),
{
    let mut places: Vec<String> = Vec::new();
    match named {
        Some(dir) => {
            places.push(descend(String::from_str(dir), leaf, separator));
        },
        None => {},
    }
    match exe {
        Some(exe) => {
            let dir = match parent_dir(exe, separator) {
                Some(dir) => dir,
                None => String::from_str(exe),
            };
            places.push(descend(join_path(dir.as_str(), RESOURCES_DIR, separator), leaf, separator));
            match parent_dir(dir.as_str(), separator) {
                Some(target) => {
                    if same_text(file_name(target.as_str(), separator).as_str(), TARGET_DIR) {
                        match parent_dir(target.as_str(), separator) {
                            Some(root) => {
                                places.push(
                                    descend(
                                        join_path(root.as_str(), RESOURCES_DIR, separator),
                                        leaf,
                                        separator,
                                    ),
                                );
                            },
                            None => {},
                        }
                    }
                },
                None => {},
            }
        },
        None => {},
    }
    match cwd {
        Some(dir) => {
            places.push(descend(join_path(dir, RESOURCES_DIR, separator), leaf, separator));
        },
        None => {},
    }
    assert(texts(places@) =~= resource_places(
        text_of(named),
        text_of(exe),
        text_of(cwd),
        text_of(leaf),
        separator,
    ));
    places
}

} // verus!
