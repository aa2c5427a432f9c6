//! Identifiers and the storage keys made of them.
use vstd::prelude::*;
use vstd::string::*;

verus! {

/// A universally unique identifier, as a number of 128 bits.
#[derive(Debug, Clone, Copy, PartialEq, Eq, Structural)]
pub struct Uuid {
    pub value: u128,
}

/// A lower-case hexadecimal digit.
pub open spec fn hex_digit(digit: nat) -> char {
    if digit < 10 {
        (48 + digit) as char
    } else {
        (87 + digit) as char
    }
}

/// The last `count` hexadecimal digits of a number.
pub open spec fn hex_text(value: nat, count: nat) -> Seq<char>
    decreases count,
{
    if count == 0 {
        Seq::empty()
    } else {
        hex_text(value / 16, (count - 1) as nat).push(hex_digit(value % 16))
    }
}

impl Uuid {
    /// The identifier as it is written: thirty-two hexadecimal digits in five
    /// groups.
    pub open spec fn text(self) -> Seq<char> {
        let digits = hex_text(self.value as nat, 32);
        digits.subrange(0, 8) + seq!['-'] + digits.subrange(8, 12) + seq!['-'] + digits.subrange(
            12,
            16,
        ) + seq!['-'] + digits.subrange(16, 20) + seq!['-'] + digits.subrange(20, 32)
    }

    /// The version, which says how the identifier was made.
    pub open spec fn version(self) -> nat {
        ((self.value / 0x1000_0000_0000_0000_0000) % 16) as nat
    }

    /// How the identifier is written: `uuid::Uuid::from_u128` and the
    /// `Display` impl of `uuid`, which writes the hyphenated form in lower
    /// case.
    #[verifier::external_body]
    fn write(value: u128) -> (text: String)
        ensures
            text@ == (Uuid { value }).text(),
    {
        uuid::Uuid::from_u128(value).to_string()
    }

    /// `uuid::Uuid::simple`: the thirty-two hexadecimal digits alone, in lower
    /// case.
    #[verifier::external_body]
    fn write_simple(value: u128) -> (text: String)
        ensures
            text@ == hex_text(value as nat, 32),
    {
        uuid::Uuid::from_u128(value).simple().to_string()
    }

    /// The digits of the identifier, without hyphens.
    pub fn to_simple_text(&self) -> (text: String)
        ensures
            text@ == hex_text(self.value as nat, 32),
    {
        Uuid::write_simple(self.value)
    }

    /// The identifier as it is written.
    pub fn to_text(&self) -> (text: String)
        ensures
            text@ == self.text(),
    {
        Uuid::write(self.value)
    }
}

/// The identifier that `uuid::Uuid::new_v5` derives from a namespace and a
/// name.
pub uninterp spec fn derived_id(namespace: u128, name: Seq<u8>) -> u128;

/// `uuid::Uuid::new_v5`. The contract says that the identifier is a function
/// of the namespace and the name, and that it says of itself that it was
/// derived (version five).
#[verifier::external_body]
fn derive_id(namespace: u128, name: &[u8]) -> (value: u128)
    ensures
        value == derived_id(namespace, name@),
        (Uuid { value }).version() == 5,
{
    uuid::Uuid::new_v5(&uuid::Uuid::from_u128(namespace), name).as_u128()
}

/// The namespace of addresses.
pub const NAMESPACE_URL: u128 = 0x6ba7b811_9dad_11d1_80b4_00c04fd430c8;

/// The name of the namespace for screenshots that are carried forward.
pub open spec fn carry_forward_namespace() -> Seq<u8> {
    vstd::utf8::encode_utf8("vrt:carry-forward"@)
}

/// What the identifier of a carried screenshot is derived from.
pub open spec fn carry_forward_name(build_id: Uuid, name: Seq<char>) -> Seq<char> {
    build_id.text() + "/"@ + name
}

/// The identifier of the screenshot `name` that a build takes over from its
/// baseline. It depends on the build and the name alone, so that doing the
/// work again ends up at the same identifier.
pub fn carry_forward_screenshot_id(build_id: Uuid, name: &str) -> (id: Uuid)
    ensures
        id.value == derived_id(
            derived_id(NAMESPACE_URL, carry_forward_namespace()),
            vstd::utf8::encode_utf8(carry_forward_name(build_id, name@)),
        ),
        id.value == derived_id(
            derived_id(
                0x6ba7b811_9dad_11d1_80b4_00c04fd430c8,
                vstd::utf8::encode_utf8("vrt:carry-forward"@),
            ),
            vstd::utf8::encode_utf8(build_id.text() + "/"@ + name@),
        ),
        id.version() == 5,
{
    let namespace: u128 = derive_id(NAMESPACE_URL, "vrt:carry-forward".as_bytes());
    let mut text = build_id.to_text();
    text.append("/");
    text.append(name);
    let value: u128 = derive_id(namespace, text.as_str().as_bytes());
    Uuid { value }
}

// ── storage keys ────────────────────────────────────────────────────────

/// The prefix of all keys of a build.
pub open spec fn build_prefix(tenant: Uuid, project: Uuid, build: Uuid) -> Seq<char> {
    "tenants/"@ + tenant.text() + "/projects/"@ + project.text() + "/builds/"@ + build.text() + "/"@
}

/// The key of a screenshot.
pub open spec fn screenshot_key_text(
    tenant: Uuid,
    project: Uuid,
    build: Uuid,
    screenshot: Uuid,
) -> Seq<char> {
    build_prefix(tenant, project, build) + screenshot.text() + ".png"@
}

/// The key of the picture of a difference.
pub open spec fn diff_key_text(
    tenant: Uuid,
    project: Uuid,
    build: Uuid,
    comparison: Uuid,
) -> Seq<char> {
    build_prefix(tenant, project, build) + "diffs/"@ + comparison.text() + ".png"@
}

/// The key of a bundle.
pub open spec fn storybook_key_text(tenant: Uuid, project: Uuid, build: Uuid) -> Seq<char> {
    build_prefix(tenant, project, build) + "storybook.zip"@
}

fn build_prefix_text(tenant: Uuid, project: Uuid, build: Uuid) -> (text: String)
    ensures
        text@ == build_prefix(tenant, project, build),
{
    let mut text = "tenants/".to_string();
    let id = tenant.to_text();
    text.append(id.as_str());
    text.append("/projects/");
    let id = project.to_text();
    text.append(id.as_str());
    text.append("/builds/");
    let id = build.to_text();
    text.append(id.as_str());
    text.append("/");
    text
}

/// The key of the bundle of a build.
pub fn storybook_key(tenant_id: Uuid, project_id: Uuid, build_id: Uuid) -> (key: String)
    ensures
        key@ == storybook_key_text(tenant_id, project_id, build_id),
        key@ == "tenants/"@ + tenant_id.text() + "/projects/"@ + project_id.text() + "/builds/"@
            + build_id.text() + "/"@ + "storybook.zip"@,
{
    let mut key = build_prefix_text(tenant_id, project_id, build_id);
    key.append("storybook.zip");
    key
}

/// The key of a screenshot.
pub fn screenshot_key(
    tenant_id: Uuid,
    project_id: Uuid,
    build_id: Uuid,
    screenshot_id: Uuid,
) -> (key: String)
    ensures
        key@ == screenshot_key_text(tenant_id, project_id, build_id, screenshot_id),
        key@ == "tenants/"@ + tenant_id.text() + "/projects/"@ + project_id.text() + "/builds/"@
            + build_id.text() + "/"@ + screenshot_id.text() + ".png"@,
{
    let mut key = build_prefix_text(tenant_id, project_id, build_id);
    let id = screenshot_id.to_text();
    key.append(id.as_str());
    key.append(".png");
    key
}

/// The key of the picture of a difference.
pub fn diff_key(tenant_id: Uuid, project_id: Uuid, build_id: Uuid, comparison_id: Uuid) -> (key:
    String)
    ensures
        key@ == diff_key_text(tenant_id, project_id, build_id, comparison_id),
        key@ == "tenants/"@ + tenant_id.text() + "/projects/"@ + project_id.text() + "/builds/"@
            + build_id.text() + "/"@ + "diffs/"@ + comparison_id.text() + ".png"@,
{
    let mut key = build_prefix_text(tenant_id, project_id, build_id);
    key.append("diffs/");
    let id = comparison_id.to_text();
    key.append(id.as_str());
    key.append(".png");
    key
}

// ── what holds of identifiers and keys ──────────────────────────────────

/// Sixteen to the power of `n`.
spec fn pow16(n: nat) -> nat
    decreases n,
{
    if n == 0 {
        1
    } else {
        16 * pow16((n - 1) as nat)
    }
}

/// A character of a written identifier.
pub open spec fn is_id_char(c: char) -> bool {
    '0' <= c <= '9' || 'a' <= c <= 'f' || c == '-'
}

proof fn lemma_hex_chars(value: nat, count: nat)
    ensures
        hex_text(value, count).len() == count,
        forall|i: int| 0 <= i < count ==> is_id_char(#[trigger] hex_text(value, count)[i]),
    decreases count,
{
    if count > 0 {
        lemma_hex_chars(value / 16, (count - 1) as nat);
    }
}

proof fn lemma_hex_injective(a: nat, b: nat, count: nat)
    requires
        a < pow16(count),
        b < pow16(count),
        hex_text(a, count) == hex_text(b, count),
    ensures
        a == b,
    decreases count,
{
    if count > 0 {
        let x = hex_text(a, count);
        let y = hex_text(b, count);
        assert(x.last() == hex_digit(a % 16));
        assert(y.last() == hex_digit(b % 16));
        assert(a % 16 == b % 16);
        assert(x.drop_last() =~= hex_text(a / 16, (count - 1) as nat));
        assert(y.drop_last() =~= hex_text(b / 16, (count - 1) as nat));
        lemma_hex_injective(a / 16, b / 16, (count - 1) as nat);
    }
}

/// A written identifier has thirty-six characters, all of them hexadecimal
/// digits or hyphens.
pub proof fn law_ids_are_plain(id: Uuid)
    ensures
        id.text().len() == 36,
        forall|i: int| 0 <= i < 36 ==> is_id_char(#[trigger] id.text()[i]),
{
    lemma_hex_chars(id.value as nat, 32);
    let digits = hex_text(id.value as nat, 32);
    assert forall|i: int| 0 <= i < 36 implies is_id_char(#[trigger] id.text()[i]) by {
        if i < 8 {
            assert(id.text()[i] == digits[i]);
        } else if 9 <= i < 13 {
            assert(id.text()[i] == digits[i - 1]);
        } else if 14 <= i < 18 {
            assert(id.text()[i] == digits[i - 2]);
        } else if 19 <= i < 23 {
            assert(id.text()[i] == digits[i - 3]);
        } else if 24 <= i {
            assert(id.text()[i] == digits[i - 4]);
        }
    }
}

/// Different identifiers are written differently.
pub proof fn law_ids_are_distinct(a: Uuid, b: Uuid)
    requires
        a.text() == b.text(),
    ensures
        a == b,
{
    lemma_hex_chars(a.value as nat, 32);
    lemma_hex_chars(b.value as nat, 32);
    let x = hex_text(a.value as nat, 32);
    let y = hex_text(b.value as nat, 32);
    assert forall|i: int| 0 <= i < 32 implies x[i] == y[i] by {
        let at = if i < 8 {
            i
        } else if i < 12 {
            i + 1
        } else if i < 16 {
            i + 2
        } else if i < 20 {
            i + 3
        } else {
            i + 4
        };
        assert(a.text()[at] == x[i]);
        assert(b.text()[at] == y[i]);
    }
    assert(x =~= y);
    assert(pow16(32) == 0x1_0000_0000_0000_0000_0000_0000_0000_0000) by {
        reveal_with_fuel(pow16, 33);
    }
    lemma_hex_injective(a.value as nat, b.value as nat, 32);
}

/// Different screenshots that are carried forward have different names to
/// derive their identifiers from.
pub proof fn law_carry_forward_names_are_distinct(
    a: Uuid,
    x: Seq<char>,
    b: Uuid,
    y: Seq<char>,
)
    requires
        carry_forward_name(a, x) == carry_forward_name(b, y),
    ensures
        a == b,
        x == y,
{
    law_ids_are_plain(a);
    law_ids_are_plain(b);
    reveal_strlit("/");
    let p = carry_forward_name(a, x);
    let q = carry_forward_name(b, y);
    assert(p.subrange(0, 36) =~= a.text());
    assert(q.subrange(0, 36) =~= b.text());
    assert(p.skip(37) =~= x);
    assert(q.skip(37) =~= y);
    law_ids_are_distinct(a, b);
}

proof fn lemma_prefix(tenant: Uuid, project: Uuid, build: Uuid)
    ensures
        ({
            let prefix = build_prefix(tenant, project, build);
            &&& prefix.len() == 135
            &&& prefix.subrange(8, 44) == tenant.text()
            &&& prefix.subrange(54, 90) == project.text()
            &&& prefix.subrange(98, 134) == build.text()
        }),
{
    law_ids_are_plain(tenant);
    law_ids_are_plain(project);
    law_ids_are_plain(build);
    reveal_strlit("tenants/");
    reveal_strlit("/projects/");
    reveal_strlit("/builds/");
    reveal_strlit("/");
    let prefix = build_prefix(tenant, project, build);
    assert(prefix.subrange(8, 44) =~= tenant.text());
    assert(prefix.subrange(54, 90) =~= project.text());
    assert(prefix.subrange(98, 134) =~= build.text());
}

/// What the keys of two builds begin with is the same only for the same
/// build, project and tenant.
proof fn lemma_prefixes_are_distinct(
    tenant: Uuid,
    project: Uuid,
    build: Uuid,
    other_tenant: Uuid,
    other_project: Uuid,
    other_build: Uuid,
)
    requires
        build_prefix(tenant, project, build) == build_prefix(
            other_tenant,
            other_project,
            other_build,
        ),
    ensures
        tenant == other_tenant,
        project == other_project,
        build == other_build,
{
    lemma_prefix(tenant, project, build);
    lemma_prefix(other_tenant, other_project, other_build);
    law_ids_are_distinct(tenant, other_tenant);
    law_ids_are_distinct(project, other_project);
    law_ids_are_distinct(build, other_build);
}

/// Two screenshots share a key only if they are the same screenshot.
pub proof fn law_screenshot_keys_are_distinct(
    tenant: Uuid,
    project: Uuid,
    build: Uuid,
    screenshot: Uuid,
    other_tenant: Uuid,
    other_project: Uuid,
    other_build: Uuid,
    other_screenshot: Uuid,
)
    requires
        screenshot_key_text(tenant, project, build, screenshot) == screenshot_key_text(
            other_tenant,
            other_project,
            other_build,
            other_screenshot,
        ),
    ensures
        tenant == other_tenant,
        project == other_project,
        build == other_build,
        screenshot == other_screenshot,
{
    lemma_prefix(tenant, project, build);
    lemma_prefix(other_tenant, other_project, other_build);
    law_ids_are_plain(screenshot);
    law_ids_are_plain(other_screenshot);
    let p = screenshot_key_text(tenant, project, build, screenshot);
    let q = screenshot_key_text(other_tenant, other_project, other_build, other_screenshot);
    assert(p.subrange(0, 135) =~= build_prefix(tenant, project, build));
    assert(q.subrange(0, 135) =~= build_prefix(other_tenant, other_project, other_build));
    assert(p.subrange(135, 171) =~= screenshot.text());
    assert(q.subrange(135, 171) =~= other_screenshot.text());
    lemma_prefixes_are_distinct(
        tenant,
        project,
        build,
        other_tenant,
        other_project,
        other_build,
    );
    law_ids_are_distinct(screenshot, other_screenshot);
}

/// Two differences share a key only if they are the same difference.
pub proof fn law_diff_keys_are_distinct(
    tenant: Uuid,
    project: Uuid,
    build: Uuid,
    comparison: Uuid,
    other_tenant: Uuid,
    other_project: Uuid,
    other_build: Uuid,
    other_comparison: Uuid,
)
    requires
        diff_key_text(tenant, project, build, comparison) == diff_key_text(
            other_tenant,
            other_project,
            other_build,
            other_comparison,
        ),
    ensures
        tenant == other_tenant,
        project == other_project,
        build == other_build,
        comparison == other_comparison,
{
    lemma_prefix(tenant, project, build);
    lemma_prefix(other_tenant, other_project, other_build);
    law_ids_are_plain(comparison);
    law_ids_are_plain(other_comparison);
    reveal_strlit("diffs/");
    let p = diff_key_text(tenant, project, build, comparison);
    let q = diff_key_text(other_tenant, other_project, other_build, other_comparison);
    assert(p.subrange(0, 135) =~= build_prefix(tenant, project, build));
    assert(q.subrange(0, 135) =~= build_prefix(other_tenant, other_project, other_build));
    assert(p.subrange(141, 177) =~= comparison.text());
    assert(q.subrange(141, 177) =~= other_comparison.text());
    lemma_prefixes_are_distinct(
        tenant,
        project,
        build,
        other_tenant,
        other_project,
        other_build,
    );
    law_ids_are_distinct(comparison, other_comparison);
}

/// A screenshot, a difference and a bundle never share a key.
pub proof fn law_kinds_of_keys_are_distinct(
    tenant: Uuid,
    project: Uuid,
    build: Uuid,
    screenshot: Uuid,
    other_tenant: Uuid,
    other_project: Uuid,
    other_build: Uuid,
    comparison: Uuid,
)
    ensures
        screenshot_key_text(tenant, project, build, screenshot) != diff_key_text(
            other_tenant,
            other_project,
            other_build,
            comparison,
        ),
        screenshot_key_text(tenant, project, build, screenshot) != storybook_key_text(
            other_tenant,
            other_project,
            other_build,
        ),
        diff_key_text(tenant, project, build, comparison) != storybook_key_text(
            other_tenant,
            other_project,
            other_build,
        ),
{
    lemma_prefix(tenant, project, build);
    lemma_prefix(other_tenant, other_project, other_build);
    law_ids_are_plain(screenshot);
    law_ids_are_plain(comparison);
    reveal_strlit("diffs/");
    reveal_strlit(".png");
    reveal_strlit("storybook.zip");
    assert(screenshot_key_text(tenant, project, build, screenshot).len() == 175);
    assert(diff_key_text(tenant, project, build, comparison).len() == 181);
    assert(diff_key_text(other_tenant, other_project, other_build, comparison).len() == 181);
    assert(storybook_key_text(other_tenant, other_project, other_build).len() == 148);
}

proof fn lemma_id_is_a_piece(id: Uuid)
    ensures
        crate::storage::s3::is_object_piece(id.text()),
        !id.text().contains('/'),
{
    law_ids_are_plain(id);
    reveal_strlit(".");
    reveal_strlit("..");
    assert forall|i: int| 0 <= i < id.text().len() implies !crate::storage::s3::is_control(
        #[trigger] id.text()[i],
    ) by {
        assert(is_id_char(id.text()[i]));
    }
    if id.text().contains('/') {
        let i = choose|i: int| 0 <= i < id.text().len() && id.text()[i] == '/';
        assert(is_id_char(id.text()[i]));
    }
}

/// The pieces of what the keys of a build begin with, up to the last slash.
proof fn lemma_prefix_pieces(tenant: Uuid, project: Uuid, build: Uuid) -> (front: Seq<char>)
    ensures
        build_prefix(tenant, project, build) == front + seq!['/'],
        front.len() > 0,
        front[0] == 't',
        crate::text::split(front, '/') == seq![
            "tenants"@,
            tenant.text(),
            "projects"@,
            project.text(),
            "builds"@,
            build.text(),
        ],
{
    lemma_id_is_a_piece(tenant);
    lemma_id_is_a_piece(project);
    lemma_id_is_a_piece(build);
    reveal_strlit("tenants/");
    reveal_strlit("/projects/");
    reveal_strlit("/builds/");
    reveal_strlit("/");
    reveal_strlit("tenants");
    reveal_strlit("projects");
    reveal_strlit("builds");
    let slash = seq!['/'];
    crate::text::lemma_split_whole("tenants"@, '/');
    crate::text::lemma_split_piece("tenants"@, '/', tenant.text());
    let a = "tenants"@ + slash + tenant.text();
    crate::text::lemma_split_piece(a, '/', "projects"@);
    let b = a + slash + "projects"@;
    crate::text::lemma_split_piece(b, '/', project.text());
    let c = b + slash + project.text();
    crate::text::lemma_split_piece(c, '/', "builds"@);
    let d = c + slash + "builds"@;
    crate::text::lemma_split_piece(d, '/', build.text());
    let front = d + slash + build.text();
    assert(build_prefix(tenant, project, build) =~= front + slash);
    assert(front[0] == "tenants"@[0]);
    assert(seq!["tenants"@].push(tenant.text()).push("projects"@).push(project.text()).push(
        "builds"@,
    ).push(build.text()) =~= seq![
        "tenants"@,
        tenant.text(),
        "projects"@,
        project.text(),
        "builds"@,
        build.text(),
    ]);
    front
}

proof fn lemma_fixed_pieces()
    ensures
        crate::storage::s3::is_object_piece("tenants"@),
        crate::storage::s3::is_object_piece("projects"@),
        crate::storage::s3::is_object_piece("builds"@),
        crate::storage::s3::is_object_piece("diffs"@),
        crate::storage::s3::is_object_piece("storybook.zip"@),
        !"diffs"@.contains('/'),
        !"storybook.zip"@.contains('/'),
{
    reveal_strlit(".");
    reveal_strlit("..");
    reveal_strlit("tenants");
    reveal_strlit("projects");
    reveal_strlit("builds");
    reveal_strlit("diffs");
    reveal_strlit("storybook.zip");
    assert("."@.len() == 1 && ".."@.len() == 2);
    assert("tenants"@.len() == 7 && "projects"@.len() == 8 && "builds"@.len() == 6);
    assert("diffs"@.len() == 5 && "storybook.zip"@.len() == 13);
}

proof fn lemma_picture_piece(id: Uuid)
    ensures
        crate::storage::s3::is_object_piece(id.text() + ".png"@),
        !(id.text() + ".png"@).contains('/'),
{
    lemma_id_is_a_piece(id);
    law_ids_are_plain(id);
    reveal_strlit(".png");
    reveal_strlit(".");
    reveal_strlit("..");
    let name = id.text() + ".png"@;
    assert forall|i: int| 0 <= i < name.len() implies !crate::storage::s3::is_control(
        #[trigger] name[i],
    ) && name[i] != '/' by {
        if i < 36 {
            assert(name[i] == id.text()[i]);
            assert(is_id_char(id.text()[i]));
        } else {
            assert(name[i] == ".png"@[i - 36]);
        }
    }
    assert(name.len() == 40);
}

/// Every key is the path of an object as it stands: no store refuses it, none
/// of its pieces is `..`, and it does not start with a slash.
pub proof fn law_keys_are_object_paths(tenant: Uuid, project: Uuid, build: Uuid, id: Uuid)
    ensures
        crate::storage::s3::object_path(screenshot_key_text(tenant, project, build, id)) == Some(
            screenshot_key_text(tenant, project, build, id),
        ),
        crate::storage::s3::object_path(diff_key_text(tenant, project, build, id)) == Some(
            diff_key_text(tenant, project, build, id),
        ),
        crate::storage::s3::object_path(storybook_key_text(tenant, project, build)) == Some(
            storybook_key_text(tenant, project, build),
        ),
{
    let front = lemma_prefix_pieces(tenant, project, build);
    lemma_fixed_pieces();
    lemma_id_is_a_piece(tenant);
    lemma_id_is_a_piece(project);
    lemma_id_is_a_piece(build);
    lemma_picture_piece(id);
    reveal_strlit(".png");
    reveal_strlit("diffs/");
    reveal_strlit("diffs");
    reveal_strlit("storybook.zip");
    let slash = seq!['/'];
    let pieces = crate::text::split(front, '/');
    assert forall|i: int| 0 <= i < pieces.len() implies crate::storage::s3::is_object_piece(
        #[trigger] pieces[i],
    ) by {}
    let picture = id.text() + ".png"@;
    let shot = screenshot_key_text(tenant, project, build, id);
    assert(shot =~= front + slash + picture);
    crate::text::lemma_split_piece(front, '/', picture);
    lemma_is_object_path(shot, front, picture);
    let diffs = front + slash + "diffs"@;
    crate::text::lemma_split_piece(front, '/', "diffs"@);
    let diff = diff_key_text(tenant, project, build, id);
    assert("diffs/"@ =~= "diffs"@ + slash);
    assert(diff =~= diffs + slash + picture);
    assert forall|i: int| 0 <= i < crate::text::split(diffs, '/').len() implies crate::storage::s3::is_object_piece(
        #[trigger] crate::text::split(diffs, '/')[i],
    ) by {
        if i < pieces.len() {
            assert(crate::text::split(diffs, '/')[i] == pieces[i]);
        }
    }
    lemma_is_object_path(diff, diffs, picture);
    let bundle = storybook_key_text(tenant, project, build);
    assert(bundle =~= front + slash + "storybook.zip"@);
    lemma_is_object_path(bundle, front, "storybook.zip"@);
}

proof fn lemma_is_object_path(key: Seq<char>, front: Seq<char>, piece: Seq<char>)
    requires
        key == front + seq!['/'] + piece,
        front.len() > 0,
        front[0] == 't',
        crate::storage::s3::is_object_path(front),
        crate::storage::s3::is_object_piece(piece),
        !piece.contains('/'),
    ensures
        crate::storage::s3::object_path(key) == Some(key),
{
    crate::text::lemma_split_piece(front, '/', piece);
    let pieces = crate::text::split(front, '/');
    assert forall|i: int| 0 <= i < crate::text::split(key, '/').len() implies crate::storage::s3::is_object_piece(
        #[trigger] crate::text::split(key, '/')[i],
    ) by {
        if i < pieces.len() {
            assert(crate::text::split(key, '/')[i] == pieces[i]);
        }
    }
    assert(key[0] == front[0]);
    assert(key.last() == piece.last());
    assert(piece.contains(piece.last()));
}

/// The pieces of every key, between its slashes, are the fixed words and the
/// identifiers in their places: the tenant, the project, the build, then what
/// the key is of.
pub proof fn law_keys_name_their_ids(tenant: Uuid, project: Uuid, build: Uuid, id: Uuid)
    ensures
        crate::text::split(screenshot_key_text(tenant, project, build, id), '/') == seq![
            "tenants"@,
            tenant.text(),
            "projects"@,
            project.text(),
            "builds"@,
            build.text(),
            id.text() + ".png"@,
        ],
        crate::text::split(diff_key_text(tenant, project, build, id), '/') == seq![
            "tenants"@,
            tenant.text(),
            "projects"@,
            project.text(),
            "builds"@,
            build.text(),
            "diffs"@,
            id.text() + ".png"@,
        ],
        crate::text::split(storybook_key_text(tenant, project, build), '/') == seq![
            "tenants"@,
            tenant.text(),
            "projects"@,
            project.text(),
            "builds"@,
            build.text(),
            "storybook.zip"@,
        ],
{
    let front = lemma_prefix_pieces(tenant, project, build);
    lemma_fixed_pieces();
    lemma_picture_piece(id);
    reveal_strlit("diffs/");
    reveal_strlit("diffs");
    let slash = seq!['/'];
    let picture = id.text() + ".png"@;
    assert("diffs/"@ =~= "diffs"@ + slash);
    crate::text::lemma_split_piece(front, '/', picture);
    assert(screenshot_key_text(tenant, project, build, id) =~= front + slash + picture);
    crate::text::lemma_split_piece(front, '/', "diffs"@);
    let diffs = front + slash + "diffs"@;
    crate::text::lemma_split_piece(diffs, '/', picture);
    assert(diff_key_text(tenant, project, build, id) =~= diffs + slash + picture);
    crate::text::lemma_split_piece(front, '/', "storybook.zip"@);
    assert(storybook_key_text(tenant, project, build) =~= front + slash + "storybook.zip"@);
}

/// The number that a hexadecimal digit stands for.
pub open spec fn digit_value(c: char) -> int {
    if '0' <= c <= '9' {
        c as int - '0' as int
    } else {
        c as int - 'a' as int + 10
    }
}

/// The number that hexadecimal digits stand for.
pub open spec fn hex_value(digits: Seq<char>) -> int
    decreases digits.len(),
{
    if digits.len() == 0 {
        0
    } else {
        16 * hex_value(digits.drop_last()) + digit_value(digits.last())
    }
}

proof fn lemma_hex_value(value: nat, count: nat)
    requires
        value < pow16(count),
    ensures
        hex_value(hex_text(value, count)) == value,
    decreases count,
{
    if count > 0 {
        lemma_hex_value(value / 16, (count - 1) as nat);
        let text = hex_text(value, count);
        assert(text.drop_last() =~= hex_text(value / 16, (count - 1) as nat));
        assert(text.last() == hex_digit(value % 16));
    }
}

/// A written identifier stands for its number: its digits, without the hyphens
/// behind the eighth, twelfth, sixteenth and twentieth of them, are the number
/// in hexadecimal.
pub proof fn law_ids_stand_for_their_number(id: Uuid)
    ensures
        hex_value(
            id.text().subrange(0, 8) + id.text().subrange(9, 13) + id.text().subrange(14, 18)
                + id.text().subrange(19, 23) + id.text().subrange(24, 36),
        ) == id.value,
        id.text()[8] == '-',
        id.text()[13] == '-',
        id.text()[18] == '-',
        id.text()[23] == '-',
{
    lemma_hex_chars(id.value as nat, 32);
    let digits = hex_text(id.value as nat, 32);
    let text = id.text();
    assert(text.subrange(0, 8) + text.subrange(9, 13) + text.subrange(14, 18) + text.subrange(19, 23)
        + text.subrange(24, 36) =~= digits);
    assert(pow16(32) == 0x1_0000_0000_0000_0000_0000_0000_0000_0000) by {
        reveal_with_fuel(pow16, 33);
    }
    lemma_hex_value(id.value as nat, 32);
}

} // verus!
