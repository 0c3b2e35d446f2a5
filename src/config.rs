//! Configuration records and their validation.
use vstd::prelude::*;
use crate::condition::Condition;
use crate::model::{Program, Video};

verus! {

#[derive(Debug)]
pub struct Server {
    pub listen: String,
}

impl Server {
    pub fn validate(&self) -> (r: Result<(), String>)
        ensures
            r is Ok,
    {
        Ok(())
    }
}

#[derive(Debug)]
pub struct Database {
    pub data_dir: String,
}

/// `dir` joined with `name` as a path: a separator goes between them unless `dir` is empty
/// or already ends in one.
pub open spec fn join_path(dir: Seq<char>, name: Seq<char>) -> Seq<char> {
    if dir.len() == 0 {
        name
    } else if dir.last() == '/' {
        dir + name
    } else {
        dir + seq!['/'] + name
    }
}

impl Database {
    /// Where the catalog snapshot lives: `programs.pb` in the data directory.
    pub fn programs_file_path(&self) -> (r: String)
        ensures
            r@ == join_path(self.data_dir@, "programs.pb"@),
    {
        let n = self.data_dir.as_str().unicode_len();
        if n == 0 {
            String::from_str("programs.pb")
        } else if self.data_dir.as_str().get_char(n - 1) == '/' {
            self.data_dir.clone().concat("programs.pb")
        } else {
            let with_sep = self.data_dir.clone().concat("/");
            proof {
                reveal_strlit("/");
                assert(seq!['/'] =~= "/"@);
            }
            with_sep.concat("programs.pb")
        }
    }
}

/// A storage backend on a directory.
#[derive(Debug)]
pub struct FileSystem {
    pub label: String,
    pub root_dir: String,
}

impl FileSystem {
    /// A backend needs a label and a root directory.
    pub fn validate(&self) -> (r: Result<(), String>)
        ensures
            r is Ok <==> self.label@.len() > 0 && self.root_dir@.len() > 0,
    {
        if self.label.as_str().unicode_len() == 0 {
            return Err(String::from_str("label is empty"));
        }
        if self.root_dir.as_str().unicode_len() == 0 {
            return Err(String::from_str("no storage_dir found"));
        }
        Ok(())
    }
}

/// A scratch backend that keeps videos in temporary files.
#[derive(Debug)]
pub struct Tempfile {
    pub label: String,
}

impl Tempfile {
    pub fn validate(&self) -> (r: Result<(), String>)
        ensures
            r is Ok <==> self.label@.len() > 0,
    {
        if self.label.as_str().unicode_len() == 0 {
            return Err(String::from_str("label is empty"));
        }
        Ok(())
    }
}

#[derive(Debug)]
pub enum Storage {
    FileSystem(FileSystem),
    Tempfile(Tempfile),
}

impl Storage {
    pub open spec fn valid(self) -> bool {
        match self {
            Storage::FileSystem(f) => f.label@.len() > 0 && f.root_dir@.len() > 0,
            Storage::Tempfile(t) => t.label@.len() > 0,
        }
    }

    pub fn validate(&self) -> (r: Result<(), String>)
        ensures
            r is Ok <==> self.valid(),
    {
        match self {
            Storage::FileSystem(f) => f.validate(),
            Storage::Tempfile(t) => t.validate(),
        }
    }

    pub fn label(&self) -> (r: &String)
        ensures
            *r == match *self {
                Storage::FileSystem(f) => f.label,
                Storage::Tempfile(t) => t.label,
            },
    {
        match self {
            Storage::FileSystem(f) => &f.label,
            Storage::Tempfile(t) => &t.label,
        }
    }
}

/// Where the encoder service listens; empty when there is none.
#[derive(Debug)]
pub struct Outlet {
    pub encoder_url: String,
}

impl Outlet {
    pub fn encoder_url(&self) -> (r: Option<&String>)
        ensures
            r is None <==> self.encoder_url@.len() == 0,
            r matches Some(u) ==> *u == self.encoder_url,
    {
        if self.encoder_url.as_str().unicode_len() == 0 {
            None
        } else {
            Some(&self.encoder_url)
        }
    }
}

/// Routes videos whose program and video satisfy `condition` to the backend named by
/// `storage_label` or, when the label is empty, by `storage_id`.
#[derive(Debug)]
pub struct StorageRule {
    pub condition: Condition,
    pub storage_label: String,
    pub storage_id: u128,
}

impl StorageRule {
    /// A rule names its backend by exactly one of label and identifier.
    pub open spec fn valid(self) -> bool {
        self.condition.valid() && ((self.storage_label@.len() > 0) != (self.storage_id != 0))
    }

    pub fn validate(&self) -> (r: Result<(), String>)
        ensures
            r is Ok <==> self.valid(),
    {
        match self.condition.validate() {
            Ok(()) => {},
            Err(e) => return Err(e),
        }
        let has_label = self.storage_label.as_str().unicode_len() > 0;
        let has_id = self.storage_id != 0;
        if has_label && has_id {
            return Err(
                String::from_str(
                    "you may only specify one of these properties: storage_label, storage_id",
                ),
            );
        }
        if !has_label && !has_id {
            return Err(
                String::from_str("you must specify one of these properties: storage_label, storage_id"),
            );
        }
        Ok(())
    }

    pub fn matches(&self, program: &Program, video: &Video) -> (r: bool)
        ensures
            exists|local: Option<i64>| r == self.condition.holds(*program, *video, local),
    {
        self.condition.matches(program, video)
    }
}

/// Gives videos whose program and video satisfy `condition` the key prefix `prefix`.
#[derive(Debug)]
pub struct PrefixRule {
    pub condition: Condition,
    pub prefix: String,
}

impl PrefixRule {
    pub open spec fn valid(self) -> bool {
        self.condition.valid() && self.prefix@.len() > 0
    }

    pub fn validate(&self) -> (r: Result<(), String>)
        ensures
            r is Ok <==> self.valid(),
    {
        match self.condition.validate() {
            Ok(()) => {},
            Err(e) => return Err(e),
        }
        if self.prefix.as_str().unicode_len() == 0 {
            return Err(String::from_str("prefix is empty"));
        }
        Ok(())
    }

    pub fn matches(&self, program: &Program, video: &Video) -> (r: bool)
        ensures
            exists|local: Option<i64>| r == self.condition.holds(*program, *video, local),
    {
        self.condition.matches(program, video)
    }
}

#[derive(Debug)]
pub struct Config {
    pub server: Server,
    pub database: Database,
    pub storages: Vec<Storage>,
    pub outlet: Outlet,
    pub storage_rules: Vec<StorageRule>,
    pub prefix_rules: Vec<PrefixRule>,
}

impl Config {
    pub open spec fn valid(self) -> bool {
        &&& self.storages@.len() > 0
        &&& forall|i: int| 0 <= i < self.storages@.len() ==> (#[trigger] self.storages@[i]).valid()
        &&& forall|i: int|
            0 <= i < self.storage_rules@.len() ==> (#[trigger] self.storage_rules@[i]).valid()
        &&& forall|i: int|
            0 <= i < self.prefix_rules@.len() ==> (#[trigger] self.prefix_rules@[i]).valid()
    }

    /// Checks the server, at least one storage, each storage and each rule.
    pub fn validate(&self) -> (r: Result<(), String>)
        ensures
            r is Ok <==> self.valid(),
    {
        match self.server.validate() {
            Ok(()) => {},
            Err(e) => return Err(e),
        }
        if self.storages.len() == 0 {
            return Err(String::from_str("no storage found"));
        }
        let mut i: usize = 0;
        while i < self.storages.len()
            invariant
                i <= self.storages.len(),
                forall|k: int| 0 <= k < i ==> (#[trigger] self.storages@[k]).valid(),
            decreases self.storages.len() - i,
        {
            match self.storages[i].validate() {
                Ok(()) => {},
                Err(e) => return Err(e),
            }
            i += 1;
        }
        let mut i: usize = 0;
        while i < self.storage_rules.len()
            invariant
                i <= self.storage_rules.len(),
                forall|k: int| 0 <= k < i ==> (#[trigger] self.storage_rules@[k]).valid(),
            decreases self.storage_rules.len() - i,
        {
            match self.storage_rules[i].validate() {
                Ok(()) => {},
                Err(e) => return Err(e),
            }
            i += 1;
        }
        let mut i: usize = 0;
        while i < self.prefix_rules.len()
            invariant
                i <= self.prefix_rules.len(),
                forall|k: int| 0 <= k < i ==> (#[trigger] self.prefix_rules@[k]).valid(),
            decreases self.prefix_rules.len() - i,
        {
            match self.prefix_rules[i].validate() {
                Ok(()) => {},
                Err(e) => return Err(e),
            }
            i += 1;
        }
        Ok(())
    }
}

} // verus!
