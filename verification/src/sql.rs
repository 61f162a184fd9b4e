//! Templated SQL for the service catalog.
//!
//! Every statement is a fixed template with one placeholder for the column
//! list. The placeholder is substituted once with the schema's declared
//! field names — a compile-time-known string — and all user-supplied
//! values travel as positional parameters (`$1`, `$2`, …), never as text.
//! The builders here take no input at all, so no user data can reach the
//! statement text.

use vstd::prelude::*;

use vstd::string::StrSliceExecFns;
use vstd::string::StringExecFns;

verus! {

/// The first occurrence of `p` in `t` replaced by `r`; `t` unchanged when
/// `p` is empty or absent.
pub open spec fn spec_replace_first(t: Seq<char>, p: Seq<char>, r: Seq<char>) -> Seq<char>
    decreases t.len(),
{
    if p.len() == 0 || t.len() < p.len() {
        t
    } else if t.take(p.len() as int) == p {
        r + t.skip(p.len() as int)
    } else {
        seq![t[0]] + spec_replace_first(t.skip(1), p, r)
    }
}

/// Skipping past a non-matching head commutes with the replacement.
proof fn lemma_replace_first_step(t: Seq<char>, p: Seq<char>, r: Seq<char>)
    requires
        p.len() > 0,
        t.len() >= p.len(),
        t.take(p.len() as int) != p,
    ensures
        spec_replace_first(t, p, r) == seq![t[0]] + spec_replace_first(t.skip(1), p, r),
{
}

/// Whether `p` occurs in `t` starting at position `i`.
fn matches_at(t: &str, i: usize, p: &str) -> (r: bool)
    requires
        i + p@.len() <= t@.len(),
        t@.len() <= usize::MAX as int,
    ensures
        r == (t@.subrange(i as int, i + p@.len()) == p@),
{
    let m = p.unicode_len();
    let mut j: usize = 0;
    while j < m
        invariant
            j <= m,
            m == p@.len(),
            i + m <= t@.len(),
            t@.len() <= usize::MAX as int,
            forall|k: int| 0 <= k < j ==> t@[i + k] == p@[k],
        decreases m - j,
    {
        let a = t.get_char(i + j);
        let b = p.get_char(j);
        if a != b {
            proof {
                assert(t@.subrange(i as int, i + p@.len())[j as int] == t@[i + j]);
            }
            return false;
        }
        j = j + 1;
    }
    proof {
        assert(t@.subrange(i as int, i + p@.len()) =~= p@);
    }
    true
}

/// Substitutes the first occurrence of `p` in `t` with `r`; when `p` does
/// not occur, the template is returned unchanged.
pub fn replace_first(t: &str, p: &str, r: &str) -> (out: String)
    ensures
        out@ == spec_replace_first(t@, p@, r@),
{
    let n = t.unicode_len();
    let m = p.unicode_len();
    if m == 0 || n < m {
        return String::from_str(t);
    }
    let mut i: usize = 0;
    proof {
        assert(t@.skip(0) =~= t@);
        assert(t@.take(0) + spec_replace_first(t@, p@, r@) =~= spec_replace_first(t@, p@, r@));
    }
    while i <= n - m
        invariant
            n == t@.len(),
            m == p@.len(),
            0 < m <= n,
            i <= n - m + 1,
            spec_replace_first(t@, p@, r@) == t@.take(i as int) + spec_replace_first(
                t@.skip(i as int),
                p@,
                r@,
            ),
        decreases n - i,
    {
        let ghost rest = t@.skip(i as int);
        if matches_at(t, i, p) {
            proof {
                assert(rest.take(m as int) =~= t@.subrange(i as int, i + m as int));
                assert(rest.skip(m as int) =~= t@.skip(i + m as int));
            }
            let mut out = t.substring_char(0, i).to_owned();
            out.append(r);
            out.append(t.substring_char(i + m, n));
            proof {
                assert(t@.subrange(0, i as int) =~= t@.take(i as int));
                assert(t@.subrange(i + m as int, n as int) =~= t@.skip(i + m as int));
                assert(out@ =~= t@.take(i as int) + (r@ + t@.skip(i + m as int)));
            }
            return out;
        }
        proof {
            assert(rest.take(m as int) =~= t@.subrange(i as int, i + m as int));
            lemma_replace_first_step(rest, p@, r@);
            assert(rest.skip(1) =~= t@.skip(i + 1 as int));
            assert(t@.take(i as int) + (seq![t@[i as int]] + spec_replace_first(
                t@.skip(i + 1 as int),
                p@,
                r@,
            )) =~= t@.take(i + 1 as int) + spec_replace_first(t@.skip(i + 1 as int), p@, r@));
        }
        i = i + 1;
    }
    proof {
        assert(t@.skip(i as int).len() < m);
        assert(t@.take(i as int) + t@.skip(i as int) =~= t@);
    }
    String::from_str(t)
}

/// The placeholder each template carries for its column list.
pub open spec fn placeholder() -> Seq<char> {
    "$table_fields"@
}

/// The declared field list of a section record, also the order rows are
/// decoded in.
pub open spec fn section_fields() -> Seq<char> {
    "id, title, description, created_at"@
}

/// The declared field list of a service record, also the order rows are
/// decoded in.
pub open spec fn service_fields() -> Seq<char> {
    "id, section_id, name, description, created_at"@
}

/// The statement that inserts a section and returns the stored row.
pub fn create_section_statement() -> (r: String)
    ensures
        r@ == spec_replace_first(
            "INSERT INTO ServiceSections (title, description) VALUES ($1, $2) RETURNING $table_fields"@,
            placeholder(),
            section_fields(),
        ),
{
    let t = "INSERT INTO ServiceSections (title, description) VALUES ($1, $2) RETURNING $table_fields";
    replace_first(t, "$table_fields", "id, title, description, created_at")
}

/// The statement that inserts a service and returns the stored row.
pub fn create_service_statement() -> (r: String)
    ensures
        r@ == spec_replace_first(
            "INSERT INTO Services (section_id, name, description) VALUES ($1, $2, $3) RETURNING $table_fields"@,
            placeholder(),
            service_fields(),
        ),
{
    let t = "INSERT INTO Services (section_id, name, description) VALUES ($1, $2, $3) RETURNING $table_fields";
    replace_first(t, "$table_fields", "id, section_id, name, description, created_at")
}

/// The statement that lists all sections in id order.
pub fn sections_statement() -> (r: String)
    ensures
        r@ == spec_replace_first(
            "SELECT $table_fields FROM ServiceSections ORDER BY id"@,
            placeholder(),
            section_fields(),
        ),
{
    let t = "SELECT $table_fields FROM ServiceSections ORDER BY id";
    replace_first(t, "$table_fields", "id, title, description, created_at")
}

/// The idempotent schema setup: both tables created only when absent, ids
/// serial, timestamps assigned by the store, and the service table's
/// section reference enforced relationally.
pub fn setup_statement() -> (r: String)
    ensures
        r@ == "CREATE TABLE IF NOT EXISTS ServiceSections (id SERIAL PRIMARY KEY, title TEXT NOT NULL, description TEXT NOT NULL, created_at TIMESTAMP NOT NULL DEFAULT now()); CREATE TABLE IF NOT EXISTS Services (id SERIAL PRIMARY KEY, section_id INTEGER NOT NULL REFERENCES ServiceSections(id), name TEXT NOT NULL, description TEXT NOT NULL, created_at TIMESTAMP NOT NULL DEFAULT now());"@,
{
    String::from_str(
        "CREATE TABLE IF NOT EXISTS ServiceSections (id SERIAL PRIMARY KEY, title TEXT NOT NULL, description TEXT NOT NULL, created_at TIMESTAMP NOT NULL DEFAULT now()); CREATE TABLE IF NOT EXISTS Services (id SERIAL PRIMARY KEY, section_id INTEGER NOT NULL REFERENCES ServiceSections(id), name TEXT NOT NULL, description TEXT NOT NULL, created_at TIMESTAMP NOT NULL DEFAULT now());",
    )
}

/// The statement that lists one section's services in id order.
pub fn services_by_section_statement() -> (r: String)
    ensures
        r@ == spec_replace_first(
            "SELECT $table_fields FROM Services WHERE section_id = $1 ORDER BY id"@,
            placeholder(),
            service_fields(),
        ),
{
    let t = "SELECT $table_fields FROM Services WHERE section_id = $1 ORDER BY id";
    replace_first(t, "$table_fields", "id, section_id, name, description, created_at")
}

} // verus!
