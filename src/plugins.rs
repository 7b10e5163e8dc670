use vstd::prelude::*;

use crate::text::{chars_of, lower_of, lowercase, matches_at, occurs_at, same_text, texts};

verus! {

/// Number of optional plugins in the catalog; they come first.
pub const OPTIONAL_COUNT: usize = 8;

/// Number of plugins in the catalog; the last ones are required.
pub const CATALOG_LEN: usize = 10;

/// Display name of catalog entry `i`.
pub open spec fn catalog_name(i: int) -> Seq<char> {
    if i == 0 {
        "Lithium"@
    } else if i == 1 {
        "Fabric-Api"@
    } else if i == 2 {
        "Ferritecore"@
    } else if i == 3 {
        "C2me"@
    } else if i == 4 {
        "Servercore"@
    } else if i == 5 {
        "Structure_Layout_Optimizer"@
    } else if i == 6 {
        "ResourcefulConfig"@
    } else if i == 7 {
        "ScalableLux"@
    } else if i == 8 {
        "Chunky"@
    } else {
        "SubChunker_Companion"@
    }
}

/// Page from which catalog entry `i` is installed.
pub open spec fn catalog_page(i: int) -> Seq<char> {
    if i == 0 {
        "https://modrinth.com/mod/lithium/versions"@
    } else if i == 1 {
        "https://modrinth.com/mod/fabric-api/versions"@
    } else if i == 2 {
        "https://modrinth.com/mod/ferrite-core/versions"@
    } else if i == 3 {
        "https://modrinth.com/mod/c2me-fabric/versions"@
    } else if i == 4 {
        "https://modrinth.com/mod/servercore/versions"@
    } else if i == 5 {
        "https://modrinth.com/mod/structure-layout-optimizer/versions"@
    } else if i == 6 {
        "https://modrinth.com/mod/resourceful-config/versions"@
    } else if i == 7 {
        "https://modrinth.com/mod/scalablelux/versions"@
    } else if i == 8 {
        "https://modrinth.com/plugin/chunky/versions"@
    } else {
        "https://modrinth.com/project/subchunker-companion/versions"@
    }
}

fn catalog_name_at(i: usize) -> (r: &'static str)
    requires
        i < CATALOG_LEN,
    ensures
        r@ == catalog_name(i as int),
{
    if i == 0 {
        "Lithium"
    } else if i == 1 {
        "Fabric-Api"
    } else if i == 2 {
        "Ferritecore"
    } else if i == 3 {
        "C2me"
    } else if i == 4 {
        "Servercore"
    } else if i == 5 {
        "Structure_Layout_Optimizer"
    } else if i == 6 {
        "ResourcefulConfig"
    } else if i == 7 {
        "ScalableLux"
    } else if i == 8 {
        "Chunky"
    } else {
        "SubChunker_Companion"
    }
}

fn catalog_page_at(i: usize) -> (r: &'static str)
    requires
        i < CATALOG_LEN,
    ensures
        r@ == catalog_page(i as int),
{
    if i == 0 {
        "https://modrinth.com/mod/lithium/versions"
    } else if i == 1 {
        "https://modrinth.com/mod/fabric-api/versions"
    } else if i == 2 {
        "https://modrinth.com/mod/ferrite-core/versions"
    } else if i == 3 {
        "https://modrinth.com/mod/c2me-fabric/versions"
    } else if i == 4 {
        "https://modrinth.com/mod/servercore/versions"
    } else if i == 5 {
        "https://modrinth.com/mod/structure-layout-optimizer/versions"
    } else if i == 6 {
        "https://modrinth.com/mod/resourceful-config/versions"
    } else if i == 7 {
        "https://modrinth.com/mod/scalablelux/versions"
    } else if i == 8 {
        "https://modrinth.com/plugin/chunky/versions"
    } else {
        "https://modrinth.com/project/subchunker-companion/versions"
    }
}

fn catalog_range(from: usize, to: usize) -> (r: Vec<String>)
    requires
        from <= to <= CATALOG_LEN,
    ensures
        r@.len() == to - from,
        forall|i: int| 0 <= i < to - from ==> (#[trigger] r@[i])@ == catalog_name(from + i),
{
    let mut r: Vec<String> = Vec::new();
    let mut i: usize = from;
    while i < to
        invariant
            from <= i <= to <= CATALOG_LEN,
            r@.len() == i - from,
            forall|k: int| 0 <= k < i - from ==> (#[trigger] r@[k])@ == catalog_name(from + k),
        decreases to - i,
    {
        r.push(String::from_str(catalog_name_at(i)));
        i = i + 1;
    }
    r
}

/// The optional plugins of the catalog, in catalog order.
pub fn optional_plugins() -> (r: Vec<String>)
    ensures
        r@.len() == OPTIONAL_COUNT,
        forall|i: int| 0 <= i < OPTIONAL_COUNT ==> (#[trigger] r@[i])@ == catalog_name(i),
{
    catalog_range(0, OPTIONAL_COUNT)
}

/// The required plugins of the catalog, in catalog order.
pub fn required_plugins() -> (r: Vec<String>)
    ensures
        r@.len() == CATALOG_LEN - OPTIONAL_COUNT,
        forall|i: int|
            0 <= i < CATALOG_LEN - OPTIONAL_COUNT ==> (#[trigger] r@[i])@ == catalog_name(
                OPTIONAL_COUNT + i,
            ),
{
    catalog_range(OPTIONAL_COUNT, CATALOG_LEN)
}

/// A plugin counts as installed when its lower-cased name is among the
/// identifiers read from the installed archives.
pub open spec fn is_installed(installed: Seq<Seq<char>>, name: Seq<char>) -> bool {
    installed.contains(lower_of(name))
}

fn contains_text(v: &Vec<String>, t: &String) -> (r: bool)
    ensures
        r == texts(v@).contains(t@),
{
    let mut i: usize = 0;
    while i < v.len()
        invariant
            i <= v@.len(),
            forall|k: int| 0 <= k < i ==> v@[k]@ != t@,
        decreases v.len() - i,
    {
        if v[i] == *t {
            assert(texts(v@)[i as int] == t@);
            return true;
        }
        i = i + 1;
    }
    assert forall|k: int| 0 <= k < texts(v@).len() implies texts(v@)[k] != t@ by {
        assert(texts(v@)[k] == v@[k]@);
    }
    false
}

/// Whether the plugin named `mod_name` is among the installed identifiers.
pub fn is_mod_installed(mod_name: &str, installed: &Vec<String>) -> (r: bool)
    ensures
        r == is_installed(texts(installed@), mod_name@),
{
    let lower = lowercase(mod_name);
    contains_text(installed, &lower)
}

/// Whether entry `j` of the combined catalog (optional entries first, then
/// required ones) still needs installing: an optional one when it is
/// toggled on and not installed, a required one when it is not installed.
pub open spec fn applicable(
    optional: Seq<Seq<char>>,
    toggles: Seq<bool>,
    required: Seq<Seq<char>>,
    installed: Seq<Seq<char>>,
    j: int,
) -> bool {
    if j < optional.len() {
        j < toggles.len() && toggles[j] && !is_installed(installed, optional[j])
    } else {
        !is_installed(installed, required[j - optional.len()])
    }
}

/// The entries among the first `n` of the combined catalog that still need
/// installing, in catalog order.
pub open spec fn gap_indices(
    optional: Seq<Seq<char>>,
    toggles: Seq<bool>,
    required: Seq<Seq<char>>,
    installed: Seq<Seq<char>>,
    n: int,
) -> Seq<int>
    decreases n,
{
    if n <= 0 {
        Seq::empty()
    } else {
        let prev = gap_indices(optional, toggles, required, installed, n - 1);
        if applicable(optional, toggles, required, installed, n - 1) {
            prev.push(n - 1)
        } else {
            prev
        }
    }
}

/// One plugin that still needs installing.
#[derive(Clone, Debug, PartialEq, Eq)]
pub struct PluginGap {
    /// Position in the combined catalog: optional entries first.
    pub index: usize,
    pub name: String,
    /// True for an optional plugin (which the user toggled on).
    pub optional: bool,
}

/// A gap as (catalog index, name, optional).
pub open spec fn gap_view(g: PluginGap) -> (int, Seq<char>, bool) {
    (g.index as int, g.name@, g.optional)
}

/// Name of entry `j` of the combined catalog.
pub open spec fn entry_name(optional: Seq<Seq<char>>, required: Seq<Seq<char>>, j: int) -> Seq<
    char,
> {
    if j < optional.len() {
        optional[j]
    } else {
        required[j - optional.len()]
    }
}

/// Entry `j` of the combined catalog, described as a gap.
pub open spec fn describe(optional: Seq<Seq<char>>, required: Seq<Seq<char>>, j: int) -> (
    int,
    Seq<char>,
    bool,
) {
    (j, entry_name(optional, required, j), j < optional.len())
}

/// The plugins that still need installing, described: optional ones that
/// are toggled on and not installed, in catalog order, then required ones
/// that are not installed, in catalog order.
pub open spec fn gaps_of(
    optional: Seq<Seq<char>>,
    toggles: Seq<bool>,
    required: Seq<Seq<char>>,
    installed: Seq<Seq<char>>,
) -> Seq<(int, Seq<char>, bool)> {
    gap_indices(
        optional,
        toggles,
        required,
        installed,
        (optional.len() + required.len()) as int,
    ).map_values(|j: int| describe(optional, required, j))
}

fn applicable_at(
    optional: &Vec<String>,
    toggles: &Vec<bool>,
    required: &Vec<String>,
    installed: &Vec<String>,
    j: usize,
) -> (r: bool)
    requires
        j < optional@.len() + required@.len(),
    ensures
        r == applicable(texts(optional@), toggles@, texts(required@), texts(installed@), j as int),
{
    if j < optional.len() {
        if j < toggles.len() && toggles[j] {
            !is_mod_installed(optional[j].as_str(), installed)
        } else {
            false
        }
    } else {
        !is_mod_installed(required[j - optional.len()].as_str(), installed)
    }
}

fn describe_at(optional: &Vec<String>, required: &Vec<String>, j: usize) -> (r: PluginGap)
    requires
        j < optional@.len() + required@.len(),
    ensures
        gap_view(r) == describe(texts(optional@), texts(required@), j as int),
{
    if j < optional.len() {
        PluginGap { index: j, name: optional[j].clone(), optional: true }
    } else {
        PluginGap { index: j, name: required[j - optional.len()].clone(), optional: false }
    }
}

/// The plugins that still need installing, in the order they are offered:
/// optional plugins first (toggled on and not installed, in catalog order),
/// then required plugins (not installed, in catalog order). `toggles[i]`
/// says whether optional plugin `i` is wanted; a missing flag counts as off.
pub fn compute_gaps(
    optional: &Vec<String>,
    toggles: &Vec<bool>,
    required: &Vec<String>,
    installed: &Vec<String>,
) -> (r: Vec<PluginGap>)
    requires
        optional@.len() + required@.len() <= usize::MAX,
    ensures
        r@.map_values(|g: PluginGap| gap_view(g)) == gaps_of(
            texts(optional@),
            toggles@,
            texts(required@),
            texts(installed@),
        ),
{
    let ghost o = texts(optional@);
    let ghost q = texts(required@);
    let ghost inst = texts(installed@);
    let total = optional.len() + required.len();
    let mut r: Vec<PluginGap> = Vec::new();
    let mut j: usize = 0;
    while j < total
        invariant
            total == optional@.len() + required@.len(),
            o == texts(optional@),
            q == texts(required@),
            inst == texts(installed@),
            j <= total,
            r@.map_values(|g: PluginGap| gap_view(g)) == gap_indices(
                o,
                toggles@,
                q,
                inst,
                j as int,
            ).map_values(|k: int| describe(o, q, k)),
        decreases total - j,
    {
        let ghost before = r@;
        if applicable_at(optional, toggles, required, installed, j) {
            let g = describe_at(optional, required, j);
            r.push(g);
            assert(r@.map_values(|g: PluginGap| gap_view(g)) =~= before.map_values(
                |g: PluginGap| gap_view(g),
            ).push(gap_view(g)));
            assert(gap_indices(o, toggles@, q, inst, j + 1).map_values(
                |k: int| describe(o, q, k),
            ) =~= gap_indices(o, toggles@, q, inst, j as int).map_values(
                |k: int| describe(o, q, k),
            ).push(describe(o, q, j as int)));
        }
        j = j + 1;
    }
    r
}

/// Where the search for the next plugin starts: just past `current`, or
/// at the beginning.
pub open spec fn start_of(current: Option<usize>) -> int {
    match current {
        Some(c) => c + 1,
        None => 0,
    }
}

/// The next plugin to install after the one at `current` (from the start
/// of the catalog when `current` is `None`): the first entry past it that
/// still needs installing, or `None` when reconciliation is complete.
pub fn advance(
    optional: &Vec<String>,
    toggles: &Vec<bool>,
    required: &Vec<String>,
    installed: &Vec<String>,
    current: Option<usize>,
) -> (r: Option<PluginGap>)
    requires
        optional@.len() + required@.len() <= usize::MAX,
    ensures
        r matches Some(g) ==> {
            &&& start_of(current) <= g.index < optional@.len() + required@.len()
            &&& applicable(
                texts(optional@),
                toggles@,
                texts(required@),
                texts(installed@),
                g.index as int,
            )
            &&& gap_view(g) == describe(texts(optional@), texts(required@), g.index as int)
            &&& forall|k: int|
                start_of(current) <= k < g.index ==> !#[trigger] applicable(
                    texts(optional@),
                    toggles@,
                    texts(required@),
                    texts(installed@),
                    k,
                )
        },
        r is None ==> forall|k: int|
            start_of(current) <= k < optional@.len() + required@.len() ==> !#[trigger] applicable(
                texts(optional@),
                toggles@,
                texts(required@),
                texts(installed@),
                k,
            ),
{
    let total = optional.len() + required.len();
    let mut j: usize = match current {
        Some(c) => if c >= total {
            total
        } else {
            c + 1
        },
        None => 0,
    };
    let ghost from: int = start_of(current);
    while j < total
        invariant
            total == optional@.len() + required@.len(),
            j <= total,
            from == start_of(current),
            from <= j || j == total,
            forall|k: int|
                from <= k < j ==> !#[trigger] applicable(
                    texts(optional@),
                    toggles@,
                    texts(required@),
                    texts(installed@),
                    k,
                ),
        decreases total - j,
    {
        if applicable_at(optional, toggles, required, installed, j) {
            let g = describe_at(optional, required, j);
            return Some(g);
        }
        j = j + 1;
    }
    None
}

/// Where the walk through the gaps stands once the user reports having
/// installed `gap`: past it when it now shows among the installed
/// identifiers, still at `current` otherwise, so that it is offered again.
pub fn acknowledge_installed(
    current: Option<usize>,
    gap: &PluginGap,
    installed: &Vec<String>,
) -> (r: Option<usize>)
    ensures
        is_installed(texts(installed@), gap.name@) ==> r == Some(gap.index),
        !is_installed(texts(installed@), gap.name@) ==> r == current,
{
    if is_mod_installed(gap.name.as_str(), installed) {
        Some(gap.index)
    } else {
        current
    }
}

/// Position in the combined catalog of the first entry named `name`.
pub open spec fn catalog_index(name: Seq<char>) -> Option<int> {
    if exists|i: int| 0 <= i < CATALOG_LEN && catalog_name(i) == name {
        Some(
            choose|i: int|
                0 <= i < CATALOG_LEN && catalog_name(i) == name && forall|k: int|
                    0 <= k < i ==> catalog_name(k) != name,
        )
    } else {
        None
    }
}

/// Where the plugin named `mod_name` is installed from for game version
/// `version`: its catalog page with the version and the loader as query;
/// `None` for a name that is not in the catalog.
pub fn get_url(mod_name: &str, version: &str) -> (r: Option<String>)
    ensures
        r is None <==> catalog_index(mod_name@) is None,
        r matches Some(u) ==> u@ == catalog_page(catalog_index(mod_name@)->0) + "?g="@ + version@
            + "&l=fabric"@,
{
    let mut i: usize = 0;
    while i < CATALOG_LEN
        invariant
            i <= CATALOG_LEN,
            forall|k: int| 0 <= k < i ==> catalog_name(k) != mod_name@,
        decreases CATALOG_LEN - i,
    {
        if same_text(catalog_name_at(i), mod_name) {
            let ghost idx = i as int;
            assert(catalog_index(mod_name@) == Some(idx)) by {
                let c = catalog_index(mod_name@)->0;
                assert(0 <= c < CATALOG_LEN && catalog_name(c) == mod_name@ && forall|k: int|
                    0 <= k < c ==> catalog_name(k) != mod_name@);
                if c < idx {
                } else if c > idx {
                    assert(catalog_name(idx) != mod_name@);
                }
            }
            let mut u = String::from_str(catalog_page_at(i));
            u.append("?g=");
            u.append(version);
            u.append("&l=fabric");
            return Some(u);
        }
        i = i + 1;
    }
    None
}

/// Gaps depend on which identifiers are installed, not on the order in
/// which a listing returns them nor on repeats: two listings with the same
/// identifiers give the same gaps, so computing the gaps twice with nothing
/// installed in between gives the same list.
pub proof fn law_gaps_depend_on_installed_set(
    optional: Seq<Seq<char>>,
    toggles: Seq<bool>,
    required: Seq<Seq<char>>,
    installed1: Seq<Seq<char>>,
    installed2: Seq<Seq<char>>,
)
    requires
        installed1.to_set() == installed2.to_set(),
    ensures
        gaps_of(optional, toggles, required, installed1) == gaps_of(
            optional,
            toggles,
            required,
            installed2,
        ),
{
    assert forall|name: Seq<char>|
        is_installed(installed1, name) == is_installed(installed2, name) by {
        assert(installed1.to_set().contains(lower_of(name)) == installed1.contains(lower_of(name)));
        assert(installed2.to_set().contains(lower_of(name)) == installed2.contains(lower_of(name)));
    }
    lemma_gap_indices_same(
        optional,
        toggles,
        required,
        installed1,
        installed2,
        (optional.len() + required.len()) as int,
    );
}

proof fn lemma_gap_indices_same(
    optional: Seq<Seq<char>>,
    toggles: Seq<bool>,
    required: Seq<Seq<char>>,
    installed1: Seq<Seq<char>>,
    installed2: Seq<Seq<char>>,
    n: int,
)
    requires
        forall|name: Seq<char>| is_installed(installed1, name) == is_installed(installed2, name),
    ensures
        gap_indices(optional, toggles, required, installed1, n) == gap_indices(
            optional,
            toggles,
            required,
            installed2,
            n,
        ),
    decreases n,
{
    if n > 0 {
        lemma_gap_indices_same(optional, toggles, required, installed1, installed2, n - 1);
        assert(applicable(optional, toggles, required, installed1, n - 1) == applicable(
            optional,
            toggles,
            required,
            installed2,
            n - 1,
        ));
    }
}

/// A file in the plugin directory is a plugin archive when its name ends
/// in `.jar`.
pub open spec fn is_plugin_archive_name(name: Seq<char>) -> bool {
    name.len() >= 4 && occurs_at(name, ".jar"@, name.len() - 4)
}

/// Whether a file name is that of a plugin archive.
pub fn is_plugin_archive(file_name: &str) -> (r: bool)
    ensures
        r == is_plugin_archive_name(file_name@),
{
    let cs = chars_of(file_name);
    let suffix = chars_of(".jar");
    if cs.len() < 4 {
        return false;
    }
    matches_at(&cs, &suffix, cs.len() - 4)
}

proof fn lemma_gap_indices_shape(
    optional: Seq<Seq<char>>,
    toggles: Seq<bool>,
    required: Seq<Seq<char>>,
    installed: Seq<Seq<char>>,
    n: int,
)
    requires
        n >= 0,
    ensures
        ({
            let g = gap_indices(optional, toggles, required, installed, n);
            &&& forall|i: int| 0 <= i < g.len() ==> 0 <= #[trigger] g[i] < n
            &&& forall|i: int, j: int| 0 <= i < j < g.len() ==> g[i] < g[j]
            &&& forall|k: int|
                0 <= k < n ==> (applicable(optional, toggles, required, installed, k)
                    <==> #[trigger] g.contains(k))
        }),
    decreases n,
{
    if n > 0 {
        lemma_gap_indices_shape(optional, toggles, required, installed, n - 1);
        let prev = gap_indices(optional, toggles, required, installed, n - 1);
        let g = gap_indices(optional, toggles, required, installed, n);
        assert forall|k: int|
            0 <= k < n implies (applicable(optional, toggles, required, installed, k)
            <==> #[trigger] g.contains(k)) by {
            if applicable(optional, toggles, required, installed, n - 1) {
                assert(g == prev.push(n - 1));
                if k < n - 1 {
                    if g.contains(k) {
                        let i = choose|i: int| 0 <= i < g.len() && g[i] == k;
                        assert(i < prev.len());
                        assert(prev[i] == k);
                    }
                    if prev.contains(k) {
                        let i = choose|i: int| 0 <= i < prev.len() && prev[i] == k;
                        assert(g[i] == k);
                    }
                } else {
                    assert(g[g.len() - 1] == k);
                }
            } else {
                assert(g == prev);
                if k == n - 1 && g.contains(k) {
                    let i = choose|i: int| 0 <= i < g.len() && g[i] == k;
                    assert(prev[i] < n - 1);
                }
            }
        }
    }
}

/// The gaps are exactly the catalog entries that still need installing,
/// each once, in increasing catalog order. Since `advance` returns the
/// first such entry past the one it is given, starting it before the first
/// entry and handing it back each entry it returns meets the gaps of
/// `gaps_of` one by one, in the same order.
pub proof fn law_gaps_are_the_entries_to_install(
    optional: Seq<Seq<char>>,
    toggles: Seq<bool>,
    required: Seq<Seq<char>>,
    installed: Seq<Seq<char>>,
)
    ensures
        ({
            let n = (optional.len() + required.len()) as int;
            let g = gap_indices(optional, toggles, required, installed, n);
            &&& gaps_of(optional, toggles, required, installed) == g.map_values(
                |j: int| describe(optional, required, j),
            )
            &&& forall|i: int, j: int| 0 <= i < j < g.len() ==> g[i] < g[j]
            &&& forall|k: int|
                0 <= k < n ==> (applicable(optional, toggles, required, installed, k)
                    <==> #[trigger] g.contains(k))
        }),
{
    lemma_gap_indices_shape(
        optional,
        toggles,
        required,
        installed,
        (optional.len() + required.len()) as int,
    );
}

} // verus!
