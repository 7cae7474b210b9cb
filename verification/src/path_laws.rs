//! What holds of paths.

use crate::common::process;
use crate::config::places;
use crate::config::places::Surroundings;
use crate::paths;
use crate::text;
use crate::text_laws;
use vstd::prelude::*;
use vstd::string::*;

verus! {

/// A name is put below a directory with one slash between them. A name that says where it
/// is by itself stays as it is, and so does one below no directory.
pub proof fn law_names_are_put_below_directories(base: Seq<char>, name: Seq<char>)
    ensures
        name.len() > 0 && name[0] == '/' ==> paths::joined(base, name) == name,
        base.len() == 0 ==> paths::joined(base, name) == name,
        !(name.len() > 0 && name[0] == '/') && base.len() > 0 && base.last() != '/'
            ==> paths::joined(base, name) == base + seq!['/'] + name,
        !(name.len() > 0 && name[0] == '/') && base.len() > 0 && base.last() == '/'
            ==> paths::joined(base, name) == base + name,
{
    reveal_strlit("/");
    assert("/"@ =~= seq!['/']);
}

/// Whether a text names one file: it is not empty, holds no slash, and is neither this
/// directory nor the one above.
pub open spec fn plain_name(name: Seq<char>) -> bool {
    name.len() > 0 && !name.contains('/') && name != seq!['.'] && name != seq!['.', '.']
}

proof fn lemma_last_slash(base: Seq<char>, name: Seq<char>, start: int)
    requires
        0 <= start <= base.len(),
        !name.contains('/'),
    ensures
        ({
            let p = base + seq!['/'] + name;
            &&& text::rfind(p.skip(start), '/') == Some(base.len() - start)
            &&& paths::last_part(p, start) == name
            &&& paths::cut(p, start) == base.len()
        }),
{
    let p = base + seq!['/'] + name;
    let s = p.skip(start);
    text_laws::law_the_last_place_is_found(s, '/');
    let at = base.len() - start;
    assert(s[at] == '/');
    if text::rfind(s, '/') is None {
        assert(s.contains(s[at]));
    }
    let k = text::rfind(s, '/')->0;
    if k < at {
        assert(s.skip(k + 1)[at - k - 1] == '/');
        assert(s.skip(k + 1).contains('/'));
    }
    if k > at {
        assert(s[k] == name[k - at - 1]);
        assert(name.contains('/'));
    }
    assert(p.skip(start + at + 1) =~= name);
}

/// What is put below a directory is found again: its file name is the name that was put.
pub proof fn law_file_names_are_found_again(base: Seq<char>, name: Seq<char>)
    requires
        base.len() > 0,
        base.last() != '/',
        plain_name(name),
    ensures
        paths::file_name(paths::joined(base, name)) == Some(name),
        paths::file_name(name) == Some(name),
{
    law_names_are_put_below_directories(base, name);
    if name[0] == '/' {
        assert(name.contains(name[0]));
    }
    let p = paths::joined(base, name);
    let start = paths::body_start(p);
    assert(0 <= start <= 1);
    lemma_last_slash(base, name, start);
    assert(paths::shortened(p, start) == p);
    let at = paths::body_start(name);
    if at == 1 {
        if name.len() == 1 {
            assert(name =~= seq!['.']);
        } else {
            assert(name.contains(name[1]));
        }
    }
    text_laws::law_the_last_place_is_found(name, '/');
    if let Some(k) = text::rfind(name, '/') {
        assert(name.contains(name[k]));
    }
    assert(name.skip(0) =~= name);
    assert(paths::shortened(name, 0) == name);
}

/// A process goes by the name of its file, or by what it calls itself where the file is
/// not known.
pub proof fn law_processes_go_by_their_files(base: Seq<char>, name: Seq<char>, comm: Seq<char>)
    requires
        base.len() > 0,
        base.last() != '/',
        plain_name(name),
    ensures
        process::process_name(Some(paths::joined(base, name)), comm) == name,
        process::process_name(None, comm) == text::trimmed(comm),
{
    law_file_names_are_found_again(base, name);
}

/// Where the program keeps its files: in the directory that is named, else below that of
/// the user's settings, else below the user's directory, else here. What is kept for a
/// configuration is kept in the directory that is named, else beside the configuration,
/// else in the usual place.
pub proof fn law_where_files_are_kept(e: Surroundings, path: Seq<char>)
    ensures
        e.home_dir matches Some(d) ==> places::program_dir(e) == d@ && places::cache_dir(path, e)
            == d@,
        e.home_dir is None ==> {
            &&& e.xdg_config_home matches Some(x) ==> places::program_dir(e) == paths::joined(
                x@,
                "meow"@,
            ) && places::usual_dir(e) == paths::joined(x@, "meow"@)
            &&& e.xdg_config_home is None ==> (e.home matches Some(h) ==> places::program_dir(e)
                == paths::joined(paths::joined(h@, ".config"@), "meow"@) && places::usual_dir(e)
                == paths::joined(paths::joined(h@, ".config"@), "meow"@))
            &&& e.xdg_config_home is None && e.home is None ==> places::program_dir(e) == "."@
                && places::usual_dir(e) == paths::joined("."@, "meow"@)
            &&& (paths::parent(path) matches Some(p) && p.len() > 0) ==> places::cache_dir(path, e)
                == paths::parent(path)->0
            &&& !(paths::parent(path) matches Some(p) && p.len() > 0) ==> places::cache_dir(path, e)
                == places::usual_dir(e)
        },
{
}

/// A name below a directory has that directory as its parent, and a bare name has the
/// empty path. What stands for this directory has the empty path too; the root and the
/// empty path have none.
pub proof fn law_directories_are_found_again(base: Seq<char>, name: Seq<char>)
    requires
        base.len() > 0,
        base.last() != '/',
        base.last() != '.',
        plain_name(name),
    ensures
        paths::parent(paths::joined(base, name)) == Some(base),
        paths::parent(name) == Some(Seq::<char>::empty()),
        paths::parent(seq!['.']) == Some(Seq::<char>::empty()),
        paths::parent(seq!['/']) is None,
        paths::parent(Seq::empty()) is None,
{
    law_names_are_put_below_directories(base, name);
    if name[0] == '/' {
        assert(name.contains(name[0]));
    }
    let p = paths::joined(base, name);
    let start = paths::body_start(p);
    assert(0 <= start <= 1);
    lemma_last_slash(base, name, start);
    assert(paths::shortened(p, start) == p);
    assert(p.take(base.len() as int) =~= base);
    if start == 1 {
        assert(p[0] == base[0]);
        if base.len() == 1 {
            assert(base[0] == base.last());
        }
    }
    lemma_stays(base, start);
    let at = paths::body_start(name);
    if at == 1 {
        if name.len() == 1 {
            assert(name =~= seq!['.']);
        } else {
            assert(name.contains(name[1]));
        }
    }
    text_laws::law_the_last_place_is_found(name, '/');
    if let Some(k) = text::rfind(name, '/') {
        assert(name.contains(name[k]));
    }
    assert(name.skip(0) =~= name);
    assert(paths::shortened(name, 0) == name);
    assert(name.take(0) =~= Seq::<char>::empty());
    assert(paths::shortened(Seq::empty(), 0) =~= Seq::<char>::empty());
    assert(paths::shortened(seq!['.'], 1) == seq!['.']);
    assert(paths::shortened(seq!['/'], 1) == seq!['/']);
}

proof fn lemma_stays(base: Seq<char>, start: int)
    requires
        0 <= start < base.len(),
        base.last() != '/',
        base.last() != '.',
    ensures
        paths::shortened(base, start) == base,
{
    let s = base.skip(start);
    text_laws::law_the_last_place_is_found(s, '/');
    let last = paths::last_part(base, start);
    assert(s[s.len() - 1] == base.last());
    match text::rfind(s, '/') {
        Some(i) => {
            assert(i < s.len() - 1);
            assert(last[last.len() - 1] == base.last());
        },
        None => {
            assert(last =~= s);
            assert(last[last.len() - 1] == base.last());
        },
    }
    if last == seq!['.'] {
        assert(last[last.len() - 1] == '.');
    }
}

/// A name at the root has the root as its parent.
pub proof fn law_the_root_is_found_again(name: Seq<char>)
    requires
        plain_name(name),
    ensures
        paths::parent(seq!['/'] + name) == Some(seq!['/']),
        paths::file_name(seq!['/'] + name) == Some(name),
{
    let p = seq!['/'] + name;
    assert(p.skip(1) =~= name);
    text_laws::law_the_last_place_is_found(name, '/');
    if let Some(k) = text::rfind(name, '/') {
        assert(name.contains(name[k]));
    }
    assert(paths::shortened(p, 1) == p);
    assert(p.take(1) =~= seq!['/']);
    assert(paths::shortened(seq!['/'], 1) == seq!['/']);
}

} // verus!
