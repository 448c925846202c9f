//! The files that a new package starts with, and the checks made before a
//! package is created or published.

use vstd::prelude::*;
use vstd::string::*;
use crate::manifest::{has_name_chars_only, name_chars_only, ManifestError};
use crate::package::Package;
use crate::text::owned;

verus! {

/// What [`check_package_name`] answers: a package name is not empty and
/// holds only letters, numbers, underscores and hyphens.
pub open spec fn name_check(name: Seq<char>) -> Result<(), ManifestError> {
    if name.len() == 0 {
        Err(ManifestError::EmptyName)
    } else if !name_chars_only(name) {
        Err(ManifestError::InvalidName)
    } else {
        Ok(())
    }
}

/// Checks the name of a package that is to be created.
pub fn check_package_name(name: &str) -> (r: Result<(), ManifestError>)
    ensures
        r == name_check(name@),
{
    if name.unicode_len() == 0 {
        return Err(ManifestError::EmptyName);
    }
    if !has_name_chars_only(name) {
        return Err(ManifestError::InvalidName);
    }
    Ok(())
}

/// Why a package cannot be published.
#[derive(Debug, Clone, Copy, PartialEq, Eq, Structural)]
pub enum PublishError {
    /// The manifest has no description.
    MissingDescription,
    /// The manifest names no license.
    MissingLicense,
    /// The package has no source file.
    NoSourceFiles,
}

/// Checks that a package with `source_files` source files can be
/// published: its manifest has a description and a license, and it has a
/// source file. The first of these that is missing is named.
pub fn check_publishable(package: &Package, source_files: usize) -> (r: Result<(), PublishError>)
    ensures
        r == (if package.manifest@.package.description is None {
            Err(PublishError::MissingDescription)
        } else if package.manifest@.package.license is None {
            Err(PublishError::MissingLicense)
        } else if source_files == 0 {
            Err(PublishError::NoSourceFiles)
        } else {
            Ok(())
        }),
{
    if package.manifest.package.description.is_none() {
        return Err(PublishError::MissingDescription);
    }
    if package.manifest.package.license.is_none() {
        return Err(PublishError::MissingLicense);
    }
    if source_files == 0 {
        return Err(PublishError::NoSourceFiles);
    }
    Ok(())
}

/// The main module of a new package called `name`.
pub open spec fn main_module_text(name: Seq<char>) -> Seq<char> {
    "// "@ + name + r#" - Main module
//
// This is the entry point for your Quantum smart contract.

module "#@ + name + r#"::main {
    use silver::object::{Self, UID};
    use silver::transfer;
    use silver::tx_context::{Self, TxContext};

    /// Example object
    struct ExampleObject has key, store {
        id: UID,
        value: u64,
    }

    /// Create a new example object
    public fun create(value: u64, ctx: &mut TxContext): ExampleObject {
        ExampleObject {
            id: object::new(ctx),
            value,
        }
    }

    /// Transfer an example object
    public fun transfer_object(obj: ExampleObject, recipient: address) {
        transfer::transfer(obj, recipient)
    }

    /// Get the value of an example object
    public fun get_value(obj: &ExampleObject): u64 {
        obj.value
    }
}
"#@
}

/// The main module of a new package called `name`.
pub fn main_module_source(name: &str) -> (r: String)
    ensures
        r@ == main_module_text(name@),
{
    let mut r = owned("// ");
    r.append(name);
    r.append(r#" - Main module
//
// This is the entry point for your Quantum smart contract.

module "#);
    r.append(name);
    r.append(r#"::main {
    use silver::object::{Self, UID};
    use silver::transfer;
    use silver::tx_context::{Self, TxContext};

    /// Example object
    struct ExampleObject has key, store {
        id: UID,
        value: u64,
    }

    /// Create a new example object
    public fun create(value: u64, ctx: &mut TxContext): ExampleObject {
        ExampleObject {
            id: object::new(ctx),
            value,
        }
    }

    /// Transfer an example object
    public fun transfer_object(obj: ExampleObject, recipient: address) {
        transfer::transfer(obj, recipient)
    }

    /// Get the value of an example object
    public fun get_value(obj: &ExampleObject): u64 {
        obj.value
    }
}
"#);
    r
}

/// The readme of a new package called `name`.
pub open spec fn readme_text(name: Seq<char>) -> Seq<char> {
    "# "@ + name + r#"

A Quantum smart contract package.

## Building

```bash
quantum build
```

## Testing

```bash
quantum test
```

## Publishing

```bash
quantum publish
```
"#@
}

/// The readme of a new package called `name`.
pub fn readme_source(name: &str) -> (r: String)
    ensures
        r@ == readme_text(name@),
{
    let mut r = owned("# ");
    r.append(name);
    r.append(r#"

A Quantum smart contract package.

## Building

```bash
quantum build
```

## Testing

```bash
quantum test
```

## Publishing

```bash
quantum publish
```
"#);
    r
}

/// The ignore file of a new package.
pub fn gitignore_source() -> (r: &'static str)
    ensures
        r@ == "/build\n/target\n*.swp\n*.swo\n*~\n.DS_Store\n"@,
{
    "/build\n/target\n*.swp\n*.swo\n*~\n.DS_Store\n"
}

} // verus!
