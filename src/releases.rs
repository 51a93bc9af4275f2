//! The releases offered for each supported environment.

use vstd::prelude::*;

verus! {

/// A supported Java release.
#[derive(Debug, Clone, Copy, PartialEq, Eq, Structural)]
pub enum JavaVersion {
    JDK8,
    JDK11,
    JDK17,
    JDK21,
}

impl JavaVersion {
    /// The version string of this release.
    pub open spec fn spec_version(self) -> Seq<char> {
        match self {
            JavaVersion::JDK8 => "8.0.392"@,
            JavaVersion::JDK11 => "11.0.21"@,
            JavaVersion::JDK17 => "17.0.9"@,
            JavaVersion::JDK21 => "21.0.1"@,
        }
    }

    /// Every release, oldest first.
    pub open spec fn spec_all() -> Seq<JavaVersion> {
        seq![JavaVersion::JDK8, JavaVersion::JDK11, JavaVersion::JDK17, JavaVersion::JDK21]
    }

    pub fn get_version(&self) -> (r: &'static str)
        ensures
            r@ == self.spec_version(),
    {
        match self {
            JavaVersion::JDK8 => "8.0.392",
            JavaVersion::JDK11 => "11.0.21",
            JavaVersion::JDK17 => "17.0.9",
            JavaVersion::JDK21 => "21.0.1",
        }
    }

    pub fn all() -> (r: Vec<JavaVersion>)
        ensures
            r@ == Self::spec_all(),
    {
        let r = vec![JavaVersion::JDK8, JavaVersion::JDK11, JavaVersion::JDK17, JavaVersion::JDK21];
        assert(r@ =~= Self::spec_all());
        r
    }
}

impl JavaVersion {
    /// The release whose version string is `s`.
    pub fn from_version(s: &str) -> (r: Option<JavaVersion>)
        ensures
            match r {
                Some(v) => v.spec_version() == s@,
                None => forall|v: JavaVersion| v.spec_version() != s@,
            },
    {
        let all = JavaVersion::all();
        let key = crate::text::chars_of(s);
        let mut i: usize = 0;
        while i < all.len()
            invariant
                i <= all.len(),
                all@ == JavaVersion::spec_all(),
                key@ == s@,
                forall|j: int| 0 <= j < i ==> (#[trigger] all@[j]).spec_version() != s@,
            decreases all.len() - i,
        {
            let v = all[i];
            if crate::text::chars_equal(&crate::text::chars_of(v.get_version()), &key) {
                return Some(v);
            }
            i += 1;
        }
        proof {
            assert forall|v: JavaVersion| v.spec_version() != s@ by {
                match v {
                    JavaVersion::JDK8 => assert(all@[0] == v),
                    JavaVersion::JDK11 => assert(all@[1] == v),
                    JavaVersion::JDK17 => assert(all@[2] == v),
                    JavaVersion::JDK21 => assert(all@[3] == v),
                }
            }
        }
        None
    }
}

/// A supported Python release.
#[derive(Debug, Clone, Copy, PartialEq, Eq, Structural)]
pub enum PythonVersion {
    Python38,
    Python39,
    Python310,
    Python311,
    Python312,
}

impl PythonVersion {
    /// The version string of this release.
    pub open spec fn spec_version(self) -> Seq<char> {
        match self {
            PythonVersion::Python38 => "3.8.18"@,
            PythonVersion::Python39 => "3.9.18"@,
            PythonVersion::Python310 => "3.10.13"@,
            PythonVersion::Python311 => "3.11.7"@,
            PythonVersion::Python312 => "3.12.1"@,
        }
    }

    /// Every release, oldest first.
    pub open spec fn spec_all() -> Seq<PythonVersion> {
        seq![PythonVersion::Python38, PythonVersion::Python39, PythonVersion::Python310, PythonVersion::Python311, PythonVersion::Python312]
    }

    pub fn get_version(&self) -> (r: &'static str)
        ensures
            r@ == self.spec_version(),
    {
        match self {
            PythonVersion::Python38 => "3.8.18",
            PythonVersion::Python39 => "3.9.18",
            PythonVersion::Python310 => "3.10.13",
            PythonVersion::Python311 => "3.11.7",
            PythonVersion::Python312 => "3.12.1",
        }
    }

    pub fn all() -> (r: Vec<PythonVersion>)
        ensures
            r@ == Self::spec_all(),
    {
        let r = vec![PythonVersion::Python38, PythonVersion::Python39, PythonVersion::Python310, PythonVersion::Python311, PythonVersion::Python312];
        assert(r@ =~= Self::spec_all());
        r
    }
}

/// A supported Node.js release.
#[derive(Debug, Clone, Copy, PartialEq, Eq, Structural)]
pub enum NodeVersion {
    Node16,
    Node18,
    Node20,
    Node21,
}

impl NodeVersion {
    /// The version string of this release.
    pub open spec fn spec_version(self) -> Seq<char> {
        match self {
            NodeVersion::Node16 => "16.20.2"@,
            NodeVersion::Node18 => "18.19.0"@,
            NodeVersion::Node20 => "20.10.0"@,
            NodeVersion::Node21 => "21.5.0"@,
        }
    }

    /// Every release, oldest first.
    pub open spec fn spec_all() -> Seq<NodeVersion> {
        seq![NodeVersion::Node16, NodeVersion::Node18, NodeVersion::Node20, NodeVersion::Node21]
    }

    pub fn get_version(&self) -> (r: &'static str)
        ensures
            r@ == self.spec_version(),
    {
        match self {
            NodeVersion::Node16 => "16.20.2",
            NodeVersion::Node18 => "18.19.0",
            NodeVersion::Node20 => "20.10.0",
            NodeVersion::Node21 => "21.5.0",
        }
    }

    pub fn all() -> (r: Vec<NodeVersion>)
        ensures
            r@ == Self::spec_all(),
    {
        let r = vec![NodeVersion::Node16, NodeVersion::Node18, NodeVersion::Node20, NodeVersion::Node21];
        assert(r@ =~= Self::spec_all());
        r
    }
}

/// A supported Rust toolchain release.
#[derive(Debug, Clone, Copy, PartialEq, Eq, Structural)]
pub enum RustVersion {
    Rust173,
    Rust174,
    Rust175,
}

impl RustVersion {
    /// The version string of this release.
    pub open spec fn spec_version(self) -> Seq<char> {
        match self {
            RustVersion::Rust173 => "1.73.0"@,
            RustVersion::Rust174 => "1.74.1"@,
            RustVersion::Rust175 => "1.75.0"@,
        }
    }

    /// Every release, oldest first.
    pub open spec fn spec_all() -> Seq<RustVersion> {
        seq![RustVersion::Rust173, RustVersion::Rust174, RustVersion::Rust175]
    }

    pub fn get_version(&self) -> (r: &'static str)
        ensures
            r@ == self.spec_version(),
    {
        match self {
            RustVersion::Rust173 => "1.73.0",
            RustVersion::Rust174 => "1.74.1",
            RustVersion::Rust175 => "1.75.0",
        }
    }

    pub fn all() -> (r: Vec<RustVersion>)
        ensures
            r@ == Self::spec_all(),
    {
        let r = vec![RustVersion::Rust173, RustVersion::Rust174, RustVersion::Rust175];
        assert(r@ =~= Self::spec_all());
        r
    }
}

/// A supported Go release.
#[derive(Debug, Clone, Copy, PartialEq, Eq, Structural)]
pub enum GoVersion {
    Go120,
    Go121,
    Go122Beta,
}

impl GoVersion {
    /// The version string of this release.
    pub open spec fn spec_version(self) -> Seq<char> {
        match self {
            GoVersion::Go120 => "1.20.12"@,
            GoVersion::Go121 => "1.21.5"@,
            GoVersion::Go122Beta => "1.22.0-beta1"@,
        }
    }

    /// Every release, oldest first.
    pub open spec fn spec_all() -> Seq<GoVersion> {
        seq![GoVersion::Go120, GoVersion::Go121, GoVersion::Go122Beta]
    }

    pub fn get_version(&self) -> (r: &'static str)
        ensures
            r@ == self.spec_version(),
    {
        match self {
            GoVersion::Go120 => "1.20.12",
            GoVersion::Go121 => "1.21.5",
            GoVersion::Go122Beta => "1.22.0-beta1",
        }
    }

    pub fn all() -> (r: Vec<GoVersion>)
        ensures
            r@ == Self::spec_all(),
    {
        let r = vec![GoVersion::Go120, GoVersion::Go121, GoVersion::Go122Beta];
        assert(r@ =~= Self::spec_all());
        r
    }
}

/// A supported MySQL release.
#[derive(Debug, Clone, Copy, PartialEq, Eq, Structural)]
pub enum MySQLVersion {
    MySQL57,
    MySQL80,
}

impl MySQLVersion {
    /// The version string of this release.
    pub open spec fn spec_version(self) -> Seq<char> {
        match self {
            MySQLVersion::MySQL57 => "5.7.44"@,
            MySQLVersion::MySQL80 => "8.0.35"@,
        }
    }

    /// Every release, oldest first.
    pub open spec fn spec_all() -> Seq<MySQLVersion> {
        seq![MySQLVersion::MySQL57, MySQLVersion::MySQL80]
    }

    pub fn get_version(&self) -> (r: &'static str)
        ensures
            r@ == self.spec_version(),
    {
        match self {
            MySQLVersion::MySQL57 => "5.7.44",
            MySQLVersion::MySQL80 => "8.0.35",
        }
    }

    pub fn all() -> (r: Vec<MySQLVersion>)
        ensures
            r@ == Self::spec_all(),
    {
        let r = vec![MySQLVersion::MySQL57, MySQLVersion::MySQL80];
        assert(r@ =~= Self::spec_all());
        r
    }
}

/// A supported PostgreSQL release.
#[derive(Debug, Clone, Copy, PartialEq, Eq, Structural)]
pub enum PostgreSQLVersion {
    PostgreSQL13,
    PostgreSQL14,
    PostgreSQL15,
    PostgreSQL16,
}

impl PostgreSQLVersion {
    /// The version string of this release.
    pub open spec fn spec_version(self) -> Seq<char> {
        match self {
            PostgreSQLVersion::PostgreSQL13 => "13.13"@,
            PostgreSQLVersion::PostgreSQL14 => "14.10"@,
            PostgreSQLVersion::PostgreSQL15 => "15.5"@,
            PostgreSQLVersion::PostgreSQL16 => "16.1"@,
        }
    }

    /// Every release, oldest first.
    pub open spec fn spec_all() -> Seq<PostgreSQLVersion> {
        seq![PostgreSQLVersion::PostgreSQL13, PostgreSQLVersion::PostgreSQL14, PostgreSQLVersion::PostgreSQL15, PostgreSQLVersion::PostgreSQL16]
    }

    pub fn get_version(&self) -> (r: &'static str)
        ensures
            r@ == self.spec_version(),
    {
        match self {
            PostgreSQLVersion::PostgreSQL13 => "13.13",
            PostgreSQLVersion::PostgreSQL14 => "14.10",
            PostgreSQLVersion::PostgreSQL15 => "15.5",
            PostgreSQLVersion::PostgreSQL16 => "16.1",
        }
    }

    pub fn all() -> (r: Vec<PostgreSQLVersion>)
        ensures
            r@ == Self::spec_all(),
    {
        let r = vec![PostgreSQLVersion::PostgreSQL13, PostgreSQLVersion::PostgreSQL14, PostgreSQLVersion::PostgreSQL15, PostgreSQLVersion::PostgreSQL16];
        assert(r@ =~= Self::spec_all());
        r
    }
}

/// A supported MongoDB release.
#[derive(Debug, Clone, Copy, PartialEq, Eq, Structural)]
pub enum MongoDBVersion {
    MongoDB60,
    MongoDB70,
}

impl MongoDBVersion {
    /// The version string of this release.
    pub open spec fn spec_version(self) -> Seq<char> {
        match self {
            MongoDBVersion::MongoDB60 => "6.0.12"@,
            MongoDBVersion::MongoDB70 => "7.0.4"@,
        }
    }

    /// Every release, oldest first.
    pub open spec fn spec_all() -> Seq<MongoDBVersion> {
        seq![MongoDBVersion::MongoDB60, MongoDBVersion::MongoDB70]
    }

    pub fn get_version(&self) -> (r: &'static str)
        ensures
            r@ == self.spec_version(),
    {
        match self {
            MongoDBVersion::MongoDB60 => "6.0.12",
            MongoDBVersion::MongoDB70 => "7.0.4",
        }
    }

    pub fn all() -> (r: Vec<MongoDBVersion>)
        ensures
            r@ == Self::spec_all(),
    {
        let r = vec![MongoDBVersion::MongoDB60, MongoDBVersion::MongoDB70];
        assert(r@ =~= Self::spec_all());
        r
    }
}

/// A supported Redis release.
#[derive(Debug, Clone, Copy, PartialEq, Eq, Structural)]
pub enum RedisVersion {
    Redis62,
    Redis70,
    Redis72,
}

impl RedisVersion {
    /// The version string of this release.
    pub open spec fn spec_version(self) -> Seq<char> {
        match self {
            RedisVersion::Redis62 => "6.2.14"@,
            RedisVersion::Redis70 => "7.0.14"@,
            RedisVersion::Redis72 => "7.2.3"@,
        }
    }

    /// Every release, oldest first.
    pub open spec fn spec_all() -> Seq<RedisVersion> {
        seq![RedisVersion::Redis62, RedisVersion::Redis70, RedisVersion::Redis72]
    }

    pub fn get_version(&self) -> (r: &'static str)
        ensures
            r@ == self.spec_version(),
    {
        match self {
            RedisVersion::Redis62 => "6.2.14",
            RedisVersion::Redis70 => "7.0.14",
            RedisVersion::Redis72 => "7.2.3",
        }
    }

    pub fn all() -> (r: Vec<RedisVersion>)
        ensures
            r@ == Self::spec_all(),
    {
        let r = vec![RedisVersion::Redis62, RedisVersion::Redis70, RedisVersion::Redis72];
        assert(r@ =~= Self::spec_all());
        r
    }
}
} // verus!
