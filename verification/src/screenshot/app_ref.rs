//! Refs that name an application, an architecture and a branch.
use crate::text::{cat2, cat5, owned, same, split, starts_with};
use crate::{installer, text};
use vstd::prelude::*;

verus! {

/// A full ref of an application.
#[derive(Debug, Clone)]
pub struct AppRef {
    pub id: String,
    pub arch: String,
    pub branch: String,
}

/// Whether a character may stand in a part of a ref.
pub open spec fn part_char(c: char) -> bool {
    text::is_ascii_alnum(c) || c == '.' || c == '_' || c == '-'
}

/// Whether a text may stand between the slashes of a ref.
pub open spec fn part_ok(part: Seq<char>) -> bool {
    &&& part.len() > 0
    &&& !text::begins(part, "-"@)
    &&& part != "."@
    &&& part != ".."@
    &&& forall|i: int| 0 <= i < part.len() ==> part_char(#[trigger] part[i])
}

/// Whether a part of a ref is the id of an application: at least three names with dots between.
pub open spec fn id_ok(id: Seq<char>) -> bool {
    let names = text::split_on(id, '.');
    names.len() >= 3 && forall|i: int| 0 <= i < names.len() ==> (#[trigger] names[i]).len() > 0
}

/// What a ref is written as.
pub open spec fn written_ref(id: Seq<char>, arch: Seq<char>, branch: Seq<char>) -> Seq<char> {
    "app/"@ + id + "/"@ + arch + "/"@ + branch
}

/// What is wrong with a ref, if anything is.
pub open spec fn ref_fault(written: Seq<char>) -> Option<Seq<char>> {
    let parts = text::split_on(written, '/');
    if !(parts.len() == 4 && parts[0] == "app"@ && part_ok(parts[1]) && part_ok(parts[2])
        && part_ok(parts[3])) {
        Some("expected app/ID/ARCH/BRANCH ref"@)
    } else if !id_ok(parts[1]) {
        Some("invalid application ID"@)
    } else {
        None
    }
}

fn is_part(part: &str) -> (yes: bool)
    ensures
        yes == part_ok(part@),
{
    if part.is_empty() || starts_with(part, "-") || same(part, ".") || same(part, "..") {
        return false;
    }
    let all = text::chars(part);
    let mut i: usize = 0;
    while i < all.len()
        invariant
            i <= all@.len(),
            all@ == part@,
            forall|k: int| 0 <= k < i ==> part_char(#[trigger] part@[k]),
        decreases all@.len() - i,
    {
        let c = all[i];
        if !(text::ascii_alnum(c) || c == '.' || c == '_' || c == '-') {
            assert(!part_char(part@[i as int]));
            return false;
        }
        i = i + 1;
    }
    true
}

fn is_id(id: &str) -> (yes: bool)
    ensures
        yes == id_ok(id@),
{
    let names = split(id, '.');
    let ghost written = text::views(names@);
    if names.len() < 3 {
        return false;
    }
    let mut i: usize = 0;
    while i < names.len()
        invariant
            i <= names@.len(),
            written == text::views(names@),
            written == text::split_on(id@, '.'),
            forall|k: int| 0 <= k < i ==> (#[trigger] written[k]).len() > 0,
        decreases names@.len() - i,
    {
        assert(written[i as int] == names@[i as int]@);
        if names[i].as_str().is_empty() {
            return false;
        }
        i = i + 1;
    }
    true
}

impl AppRef {
    /// The parts may stand in a ref, and the id names an application.
    pub open spec fn wf(&self) -> bool {
        &&& part_ok(self.id@)
        &&& id_ok(self.id@)
        &&& part_ok(self.arch@)
        &&& part_ok(self.branch@)
    }

    /// What the ref is written as.
    pub open spec fn written(&self) -> Seq<char> {
        written_ref(self.id@, self.arch@, self.branch@)
    }

    pub fn parse(written: &str) -> (out: Result<Self, String>)
        ensures
            match ref_fault(written@) {
                Some(fault) => out matches Err(message) && message@ == fault,
                None => out matches Ok(app_ref) && app_ref.wf() && app_ref.written() == written@,
            },
    {
        let parts = split(written, '/');
        assert(forall|i: int|
            0 <= i < parts@.len() ==> (#[trigger] parts@[i])@ == text::views(parts@)[i]);
        if !(parts.len() == 4 && same(parts[0].as_str(), "app") && is_part(parts[1].as_str())
            && is_part(parts[2].as_str()) && is_part(parts[3].as_str())) {
            return Err(owned("expected app/ID/ARCH/BRANCH ref"));
        }
        if !is_id(parts[1].as_str()) {
            return Err(owned("invalid application ID"));
        }
        proof {
            lemma_written(written@);
        }
        Ok(
            AppRef {
                id: owned(parts[1].as_str()),
                arch: owned(parts[2].as_str()),
                branch: owned(parts[3].as_str()),
            },
        )
    }

    /// Reads a ref as it is listed, with its kind in front or without.
    pub fn from_installed(written: &str) -> (out: Result<Self, String>)
        ensures
            match ref_fault(installer::full_ref(written@)) {
                Some(fault) => out matches Err(message) && message@ == fault,
                None => out matches Ok(app_ref) && app_ref.wf() && app_ref.written()
                    == installer::full_ref(written@),
            },
    {
        if starts_with(written, "app/") {
            AppRef::parse(written)
        } else {
            AppRef::parse(cat2("app/", written).as_str())
        }
    }

    pub fn id(&self) -> (out: &str)
        ensures
            out@ == self.id@,
    {
        self.id.as_str()
    }

    pub fn arch(&self) -> (out: &str)
        ensures
            out@ == self.arch@,
    {
        self.arch.as_str()
    }

    pub fn branch(&self) -> (out: &str)
        ensures
            out@ == self.branch@,
    {
        self.branch.as_str()
    }

    /// What the ref is written as.
    pub fn to_string(&self) -> (out: String)
        ensures
            out@ == self.written(),
    {
        let head = cat2("app/", self.id.as_str());
        let out = cat5(head.as_str(), "/", self.arch.as_str(), "/", self.branch.as_str());
        assert(out@ =~= self.written());
        out
    }
}

/// Four parts make the text that was split into them.
proof fn lemma_written(written: Seq<char>)
    requires
        text::split_on(written, '/').len() == 4,
        text::split_on(written, '/')[0] == "app"@,
    ensures
        ({
            let parts = text::split_on(written, '/');
            written == written_ref(parts[1], parts[2], parts[3])
        }),
{
    reveal_strlit("app");
    reveal_strlit("app/");
    reveal_strlit("/");
    let parts = text::split_on(written, '/');
    text::lemma_split_join(written, '/');
    reveal_with_fuel(text::join_seq, 5);
    let three = parts.drop_last();
    let two = three.drop_last();
    let one = two.drop_last();
    assert(three.last() == parts[2] && two.last() == parts[1] && one[0] == parts[0]);
    assert(seq!['/'] =~= "/"@);
    assert(written =~= written_ref(parts[1], parts[2], parts[3]));
}

/// A text without the separator, put behind a text and a separator, is the last piece.
proof fn lemma_split_last(front: Seq<char>, last: Seq<char>, separator: char)
    requires
        !last.contains(separator),
    ensures
        text::split_on(front + seq![separator] + last, separator) == text::split_on(
            front,
            separator,
        ).push(last),
    decreases last.len(),
{
    let all = front + seq![separator] + last;
    if last.len() == 0 {
        assert(all.drop_last() =~= front);
        assert(last =~= Seq::empty());
    } else {
        let shorter = last.drop_last();
        assert(!shorter.contains(separator)) by {
            if shorter.contains(separator) {
                let k = choose|k: int| 0 <= k < shorter.len() && shorter[k] == separator;
                assert(last[k] == separator);
            }
        }
        lemma_split_last(front, shorter, separator);
        assert(all.drop_last() =~= front + seq![separator] + shorter);
        assert(all.last() == last.last());
        assert(last.contains(last.last()));
        let before = text::split_on(front, separator).push(shorter);
        assert(before.drop_last() =~= text::split_on(front, separator));
        assert(shorter.push(last.last()) =~= last);
    }
}

/// A text without the separator is one piece.
proof fn lemma_split_single(only: Seq<char>, separator: char)
    requires
        !only.contains(separator),
    ensures
        text::split_on(only, separator) == seq![only],
    decreases only.len(),
{
    if only.len() > 0 {
        let shorter = only.drop_last();
        assert(!shorter.contains(separator)) by {
            if shorter.contains(separator) {
                let k = choose|k: int| 0 <= k < shorter.len() && shorter[k] == separator;
                assert(only[k] == separator);
            }
        }
        lemma_split_single(shorter, separator);
        assert(only.contains(only.last()));
        assert(shorter.push(only.last()) =~= only);
        assert(text::split_on(only, separator) =~= seq![only]);
    } else {
        assert(only =~= Seq::empty());
    }
}

/// A ref that is written and read again is accepted, and has the same parts.
pub proof fn written_refs_read_back(app_ref: AppRef)
    requires
        app_ref.wf(),
    ensures
        ref_fault(app_ref.written()) is None,
        text::split_on(app_ref.written(), '/') == seq![
            "app"@,
            app_ref.id@,
            app_ref.arch@,
            app_ref.branch@,
        ],
{
    reveal_strlit("app");
    reveal_strlit("app/");
    reveal_strlit("/");
    let id = app_ref.id@;
    let arch = app_ref.arch@;
    let branch = app_ref.branch@;
    assert(!"app"@.contains('/'));
    assert(!id.contains('/')) by {
        if id.contains('/') {
            let k = choose|k: int| 0 <= k < id.len() && id[k] == '/';
            assert(part_char(id[k]));
        }
    }
    assert(!arch.contains('/')) by {
        if arch.contains('/') {
            let k = choose|k: int| 0 <= k < arch.len() && arch[k] == '/';
            assert(part_char(arch[k]));
        }
    }
    assert(!branch.contains('/')) by {
        if branch.contains('/') {
            let k = choose|k: int| 0 <= k < branch.len() && branch[k] == '/';
            assert(part_char(branch[k]));
        }
    }
    let one = "app"@;
    let two = one + seq!['/'] + id;
    let three = two + seq!['/'] + arch;
    let four = three + seq!['/'] + branch;
    lemma_split_single(one, '/');
    lemma_split_last(one, id, '/');
    lemma_split_last(two, arch, '/');
    lemma_split_last(three, branch, '/');
    assert(app_ref.written() =~= four);
    assert(text::split_on(four, '/') =~= seq!["app"@, id, arch, branch]);
}

} // verus!
