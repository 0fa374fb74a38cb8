//! The shapes of the system tables, and the rows of those that do not depend
//! on the tables of a database.
use vstd::prelude::*;
use crate::text::same_text;

verus! {

/// The columns of `pg_database`.
pub const PG_DATABASE_COLUMNS: &'static str = "oid:OID|datname:NAME|datdba:OID|encoding:INT|datlocprovider:PG_CHAR|datistemplate:BOOL|\
    datallowconn:BOOL|datconnlimit:INT|datcollate:TEXT|datctype:TEXT|daticulocale:TEXT|\
    datcollversion:TEXT|datacl:TEXT[]";

/// The columns of `pg_namespace`.
pub const PG_NAMESPACE_COLUMNS: &'static str = "oid:OID|nspname:NAME|nspowner:OID|nspacl:TEXT[]";

/// The columns of `pg_class`.
pub const PG_CLASS_COLUMNS: &'static str = "oid:OID|relname:NAME|relnamespace:OID|reltype:OID|reloftype:OID|relowner:OID|relam:OID|\
    relfilenode:OID|reltablespace:OID|relpages:INT|reltuples:FLOAT4|relallvisible:INT|\
    reltoastrelid:OID|relhasindex:BOOL|relisshared:BOOL|relpersistence:PG_CHAR|\
    relkind:PG_CHAR|relnatts:INT|relchecks:INT|relhasrules:BOOL|relhastriggers:BOOL|\
    relhassubclass:BOOL|relrowsecurity:BOOL|relforcerowsecurity:BOOL|relispopulated:BOOL|\
    relreplident:PG_CHAR|relispartition:BOOL|relrewrite:OID|relfrozenxid:INT|relminmxid:INT|\
    relacl:TEXT[]|reloptions:TEXT[]|relpartbound:TEXT";

/// The columns of `pg_attribute`.
pub const PG_ATTRIBUTE_COLUMNS: &'static str = "attrelid:OID|attname:NAME|atttypid:OID|attstattarget:INT|attlen:INT|attnum:INT|\
    attndims:INT|attcacheoff:INT|atttypmod:INT|attbyval:BOOL|attstorage:PG_CHAR|\
    attalign:PG_CHAR|attnotnull:BOOL|atthasdef:BOOL|atthasmissing:BOOL|attidentity:PG_CHAR|\
    attgenerated:PG_CHAR|attisdropped:BOOL|attislocal:BOOL|attinhcount:INT|attcollation:OID|\
    attacl:TEXT[]|attoptions:TEXT[]|attfdwoptions:TEXT[]|attmissingval:TEXT|\
    attcompression:PG_CHAR";

/// The columns of `pg_index`.
pub const PG_INDEX_COLUMNS: &'static str = "indexrelid:OID|indrelid:OID|indnatts:INT|indnkeyatts:INT|indisunique:BOOL|\
    indisprimary:BOOL|indisexclusion:BOOL|indimmediate:BOOL|indisclustered:BOOL|\
    indisvalid:BOOL|indcheckxmin:BOOL|indisready:BOOL|indislive:BOOL|indisreplident:BOOL|\
    indkey:INT[]|indcollation:TEXT|indclass:TEXT|indoption:TEXT|indexprs:TEXT|indpred:TEXT";

/// The columns of `pg_constraint`.
pub const PG_CONSTRAINT_COLUMNS: &'static str = "oid:OID|conname:NAME|connamespace:OID|contype:PG_CHAR|condeferrable:BOOL|\
    condeferred:BOOL|convalidated:BOOL|conrelid:OID|contypid:OID|conindid:OID|\
    conparentid:OID|confrelid:OID|confupdtype:PG_CHAR|confdeltype:PG_CHAR|\
    confmatchtype:PG_CHAR|conislocal:BOOL|coninhcount:INT|connoinherit:BOOL|conkey:INT[]|\
    confkey:INT[]|conpfeqop:OID[]|conppeqop:OID[]|conffeqop:OID[]|confdelsetcols:INT[]|\
    conexclop:OID[]|conbin:TEXT";

/// The columns of `pg_proc`.
pub const PG_PROC_COLUMNS: &'static str = "oid:OID|proname:NAME|pronamespace:OID|proowner:OID|prolang:OID|procost:FLOAT4|\
    prorows:FLOAT4|provariadic:OID|prosupport:REGPROC|prokind:PG_CHAR|prosecdef:BOOL|\
    proleakproof:BOOL|proisstrict:BOOL|proretset:BOOL|provolatile:PG_CHAR|\
    proparallel:PG_CHAR|pronargs:INT|pronargdefaults:INT|prorettype:OID|proargtypes:OID[]|\
    proallargtypes:OID[]|proargmodes:PG_CHAR[]|proargnames:TEXT[]|proargdefaults:TEXT|\
    protrftypes:OID[]|prosrc:TEXT|probin:TEXT|prosqlbody:TEXT|proconfig:TEXT[]|proacl:TEXT[]";

/// The columns of `pg_range`.
pub const PG_RANGE_COLUMNS: &'static str = "rngtypid:OID|rngsubtype:OID|rngmultitypid:OID|rngcollation:OID|rngsubopc:OID|\
    rngcanonical:REGPROC|rngsubdiff:REGPROC";

/// The columns of `pg_attrdef`.
pub const PG_ATTRDEF_COLUMNS: &'static str = "oid:OID|adrelid:OID|adnum:INT|adbin:TEXT";

/// The columns of `pg_description`.
pub const PG_DESCRIPTION_COLUMNS: &'static str = "objoid:OID|classoid:OID|objsubid:INT|description:TEXT";

/// The columns of `pg_shdescription`.
pub const PG_SHDESCRIPTION_COLUMNS: &'static str = "objoid:OID|classoid:OID|description:TEXT";

/// The columns of `pg_enum`.
pub const PG_ENUM_COLUMNS: &'static str = "oid:OID|enumtypid:OID|enumsortorder:FLOAT4|enumlabel:NAME";

/// The columns of `pg_am`.
pub const PG_AM_COLUMNS: &'static str = "oid:OID|amname:NAME|amhandler:REGPROC|amtype:PG_CHAR";

/// The columns of `pg_timezone_names`.
pub const PG_TIMEZONE_NAMES_COLUMNS: &'static str = "name:TEXT|abbrev:TEXT|utc_offset:TEXT|is_dst:BOOL";

/// The columns of `pg_timezone_abbrevs`.
pub const PG_TIMEZONE_ABBREVS_COLUMNS: &'static str = "abbrev:TEXT|utc_offset:TEXT|is_dst:BOOL";

/// The columns of `pg_auth_members`.
pub const PG_AUTH_MEMBERS_COLUMNS: &'static str = "oid:OID|roleid:OID|member:OID|grantor:OID|admin_option:BOOL|inherit_option:BOOL|\
    set_option:BOOL";

/// The columns of `pg_tablespace`.
pub const PG_TABLESPACE_COLUMNS: &'static str = "oid:OID|spcname:NAME|spcowner:OID|spcacl:TEXT|spcoptions:TEXT";

/// The columns of `pg_extension`.
pub const PG_EXTENSION_COLUMNS: &'static str = "oid:OID|extname:NAME|extowner:OID|extnamespace:OID|extrelocatable:BOOL|extversion:TEXT|\
    extconfig:TEXT|extcondition:TEXT";

/// The columns of `pg_event_trigger`.
pub const PG_EVENT_TRIGGER_COLUMNS: &'static str = "oid:OID|evtname:NAME|evtevent:NAME|evtowner:OID|evtfoid:OID|evtenabled:PG_CHAR|\
    evttags:TEXT";

/// The columns of `pg_language`.
pub const PG_LANGUAGE_COLUMNS: &'static str = "oid:OID|lanname:NAME|lanowner:OID|lanispl:BOOL|lanpltrusted:BOOL|lanplcallfoid:OID|\
    laninline:OID|lanvalidator:OID|lanacl:TEXT";

/// The columns of `pg_depend`.
pub const PG_DEPEND_COLUMNS: &'static str = "classid:OID|objid:OID|objsubid:INT4|refclassid:OID|refobjid:OID|refobjsubid:INT4|\
    deptype:PG_CHAR";

/// The columns of `pg_foreign_data_wrapper`.
pub const PG_FOREIGN_DATA_WRAPPER_COLUMNS: &'static str = "oid:OID|fdwname:NAME|fdwowner:OID|fdwhandler:OID|fdwvalidator:OID|fdwacl:TEXT|\
    fdwoptions:TEXT";

/// The columns of `pg_foreign_server`.
pub const PG_FOREIGN_SERVER_COLUMNS: &'static str = "oid:OID|srvname:NAME|srvowner:OID|srvfdw:OID|srvtype:TEXT|srvversion:TEXT|srvacl:TEXT|\
    srvoptions:TEXT";

/// The columns of `pg_user_mapping`.
pub const PG_USER_MAPPING_COLUMNS: &'static str = "oid:OID|umuser:OID|umserver:OID|umoptions:TEXT";

/// The columns of `pg_available_extensions`.
pub const PG_AVAILABLE_EXTENSIONS_COLUMNS: &'static str = "name:NAME|default_version:TEXT|installed_version:TEXT|comment:TEXT";

/// The columns of `pg_available_extension_versions`.
pub const PG_AVAILABLE_EXTENSION_VERSIONS_COLUMNS: &'static str = "name:NAME|version:TEXT|installed:BOOL|superuser:BOOL|trusted:BOOL|relocatable:BOOL|\
    schema:NAME|requires:TEXT|comment:TEXT";

/// The columns of `pg_opclass`.
pub const PG_OPCLASS_COLUMNS: &'static str = "oid:OID|opcmethod:OID|opcname:NAME|opcnamespace:OID|opcowner:OID|opcfamily:OID|\
    opcintype:OID|opcdefault:BOOL|opckeytype:OID";

/// The columns of `pg_opfamily`.
pub const PG_OPFAMILY_COLUMNS: &'static str = "oid:OID|opfmethod:OID|opfname:NAME|opfnamespace:OID|opfowner:OID";

/// The columns of `pg_amop`.
pub const PG_AMOP_COLUMNS: &'static str = "oid:OID|amopfamily:OID|amoplefttype:OID|amoprighttype:OID|amopstrategy:INT2|\
    amoppurpose:PG_CHAR|amopopr:OID|amopmethod:OID|amopsortfamily:OID";

/// The columns of `pg_amproc`.
pub const PG_AMPROC_COLUMNS: &'static str = "oid:OID|amprocfamily:OID|amproclefttype:OID|amprocrighttype:OID|amprocnum:INT2|\
    amproc:REGPROC";

/// The columns of `pg_aggregate`.
pub const PG_AGGREGATE_COLUMNS: &'static str = "aggfnoid:REGPROC|aggkind:PG_CHAR|aggnumdirectargs:INT2|aggtransfn:REGPROC|\
    aggfinalfn:REGPROC|aggtranstype:OID|agginitval:TEXT";

/// The columns of `pg_sequence`.
pub const PG_SEQUENCE_COLUMNS: &'static str = "seqrelid:OID|seqtypid:OID|seqstart:INT8|seqincrement:INT8|seqmax:INT8|seqmin:INT8|\
    seqcache:INT8|seqcycle:BOOL";

/// The columns of `pg_foreign_table`.
pub const PG_FOREIGN_TABLE_COLUMNS: &'static str = "ftrelid:OID|ftserver:OID|ftoptions:TEXT";

/// The columns of `pg_rewrite`.
pub const PG_REWRITE_COLUMNS: &'static str = "oid:OID|rulename:NAME|ev_class:OID|ev_type:PG_CHAR|ev_enabled:PG_CHAR|is_instead:BOOL|\
    ev_qual:TEXT|ev_action:TEXT";

/// The columns of `pg_policy`.
pub const PG_POLICY_COLUMNS: &'static str = "oid:OID|polname:NAME|polrelid:OID|polcmd:PG_CHAR|polpermissive:BOOL|polroles:TEXT|\
    polqual:TEXT|polwithcheck:TEXT";

/// The columns of `pg_trigger`.
pub const PG_TRIGGER_COLUMNS: &'static str = "oid:OID|tgrelid:OID|tgparentid:OID|tgname:NAME|tgfoid:OID|tgtype:INT2|tgenabled:PG_CHAR|\
    tgisinternal:BOOL|tgconstrrelid:OID|tgconstrindid:OID|tgconstraint:OID|tgnargs:INT2|\
    tgargs:TEXT|tgqual:TEXT";

/// The columns of `pg_statistic_ext`.
pub const PG_STATISTIC_EXT_COLUMNS: &'static str = "oid:OID|stxrelid:OID|stxname:NAME|stxnamespace:OID|stxowner:OID|stxkeys:INT2[]|\
    stxstattarget:INT2|stxkind:TEXT[]|stxexprs:TEXT";

/// The columns of `pg_publication`.
pub const PG_PUBLICATION_COLUMNS: &'static str = "oid:OID|pubname:NAME|pubowner:OID|puballtables:BOOL|pubinsert:BOOL|pubupdate:BOOL|\
    pubdelete:BOOL|pubtruncate:BOOL|pubviaroot:BOOL|pubgencols:PG_CHAR";

/// The columns of `pg_publication_namespace`.
pub const PG_PUBLICATION_NAMESPACE_COLUMNS: &'static str = "oid:OID|pnpubid:OID|pnnspid:OID";

/// The columns of `pg_publication_rel`.
pub const PG_PUBLICATION_REL_COLUMNS: &'static str = "oid:OID|prpubid:OID|prrelid:OID|prqual:TEXT|prattrs:INT2[]";

/// The columns of `pg_inherits`.
pub const PG_INHERITS_COLUMNS: &'static str = "inhrelid:OID|inhparent:OID|inhseqno:INT|inhdetachpending:BOOL";

/// The columns of `pg_locks`.
pub const PG_LOCKS_COLUMNS: &'static str = "locktype:TEXT|database:OID|relation:OID|transactionid:INT8|pid:INT|mode:TEXT|\
    granted:BOOL";

/// The columns of `pg_type`.
pub const PG_TYPE_COLUMNS: &'static str = "oid:OID|typname:NAME|typnamespace:OID|typowner:OID|typlen:INT|typbyval:BOOL|\
    typtype:PG_CHAR|typcategory:PG_CHAR|typispreferred:BOOL|typisdefined:BOOL|\
    typdelim:PG_CHAR|typrelid:OID|typelem:OID|typarray:OID|typinput:REGPROC|\
    typoutput:REGPROC|typreceive:REGPROC|typsend:REGPROC|typmodin:REGPROC|typmodout:REGPROC|\
    typanalyze:REGPROC|typalign:PG_CHAR|typstorage:PG_CHAR|typnotnull:BOOL|typbasetype:OID|\
    typtypmod:INT|typndims:INT|typcollation:OID|typdefaultbin:TEXT|typdefault:TEXT|\
    typacl:TEXT[]";

/// The columns of `pg_settings`.
pub const PG_SETTINGS_COLUMNS: &'static str = "name:TEXT|setting:TEXT|unit:TEXT|category:TEXT|short_desc:TEXT|extra_desc:TEXT|\
    context:TEXT|vartype:TEXT|source:TEXT|min_val:TEXT|max_val:TEXT|enumvals:TEXT[]|\
    boot_val:TEXT|reset_val:TEXT|sourcefile:TEXT|sourceline:INT|pending_restart:BOOL";

/// The columns of `pg_roles`.
pub const PG_ROLES_COLUMNS: &'static str = "oid:OID|rolname:NAME|rolsuper:BOOL|rolinherit:BOOL|rolcreaterole:BOOL|rolcreatedb:BOOL|\
    rolcanlogin:BOOL|rolreplication:BOOL|rolconnlimit:INT|rolpassword:TEXT|\
    rolvaliduntil:TIMESTAMPTZ|rolbypassrls:BOOL|rolconfig:TEXT[]";

/// The columns of `pg_user`.
pub const PG_USER_COLUMNS: &'static str = "usename:NAME|usesysid:OID|usecreatedb:BOOL|usesuper:BOOL|userepl:BOOL|usebypassrls:BOOL|\
    passwd:TEXT|valuntil:TIMESTAMPTZ|useconfig:TEXT[]";

/// The columns of `pg_tables`.
pub const PG_TABLES_COLUMNS: &'static str = "schemaname:NAME|tablename:NAME|tableowner:NAME|tablespace:NAME|hasindexes:BOOL|\
    hasrules:BOOL|hastriggers:BOOL|rowsecurity:BOOL";

/// The columns of `pg_indexes`.
pub const PG_INDEXES_COLUMNS: &'static str = "schemaname:NAME|tablename:NAME|indexname:NAME|tablespace:NAME|indexdef:TEXT";

/// The columns of `pg_collation`.
pub const PG_COLLATION_COLUMNS: &'static str = "oid:OID|collname:NAME|collnamespace:OID|collowner:OID|collprovider:PG_CHAR|\
    collisdeterministic:BOOL|collencoding:INT|collcollate:TEXT|collctype:TEXT|\
    colliculocale:TEXT|collversion:TEXT";

/// The columns of `pg_operator`.
pub const PG_OPERATOR_COLUMNS: &'static str = "oid:OID|oprname:NAME|oprnamespace:OID|oprowner:OID|oprkind:PG_CHAR|oprcanmerge:BOOL|\
    oprcanhash:BOOL|oprleft:OID|oprright:OID|oprresult:OID|oprcom:OID|oprnegate:OID|\
    oprcode:REGPROC|oprrest:REGPROC|oprjoin:REGPROC";

/// The columns of `pg_cast`.
pub const PG_CAST_COLUMNS: &'static str = "oid:OID|castsource:OID|casttarget:OID|castfunc:OID|castcontext:PG_CHAR|\
    castmethod:PG_CHAR";

/// The rows of `pg_database`.
pub const PG_DATABASE_ROWS: &'static str = "$database_oid|$database|10|6|'c|false|true|-1|'C|'C|null|null|null";

/// The rows of `pg_proc`.
pub const PG_PROC_ROWS: &'static str = "750|'array_recv|$catalog|10|12|1.0|0.0|0|0|'f|false|false|false|false|'i|'s|0|0|0|[]|\
    null|null|null|null|null|'array_recv|null|null|null|null";

/// The rows of `pg_am`.
pub const PG_AM_ROWS: &'static str = "2|'heap|'heap_tableam_handler|'t\n403|'btree|'bthandler|'i";

/// The rows of `pg_timezone_names`.
pub const PG_TIMEZONE_NAMES_ROWS: &'static str = "'UTC|'UTC|'00:00:00|false";

/// The rows of `pg_timezone_abbrevs`.
pub const PG_TIMEZONE_ABBREVS_ROWS: &'static str = "'UTC|'00:00:00|false\n'GMT|'00:00:00|false";

/// The rows of `pg_tablespace`.
pub const PG_TABLESPACE_ROWS: &'static str = "1663|'pg_default|10|null|null\n1664|'pg_global|10|null|null";

/// The rows of `pg_extension`.
pub const PG_EXTENSION_ROWS: &'static str = "$extension|'plpgsql|10|11|false|'1.0|null|null";

/// The rows of `pg_language`.
pub const PG_LANGUAGE_ROWS: &'static str = "12|'internal|10|false|false|0|0|0|null\n13|'c|10|false|false|0|0|0|null\n14|'sql|10|\
    false|true|0|0|0|null\n$language|'plpgsql|10|true|true|0|0|0|null";

/// The rows of `pg_available_extensions`.
pub const PG_AVAILABLE_EXTENSIONS_ROWS: &'static str = "'plpgsql|'1.0|'1.0|'PL/pgSQL procedural language";

/// The rows of `pg_available_extension_versions`.
pub const PG_AVAILABLE_EXTENSION_VERSIONS_ROWS: &'static str = "'plpgsql|'1.0|true|true|true|false|null|null|'PL/pgSQL procedural language";

/// The rows of `pg_roles`.
pub const PG_ROLES_ROWS: &'static str = "10|'nodus|true|true|true|true|true|false|-1|'********|null|false|null";

/// The rows of `pg_user`.
pub const PG_USER_ROWS: &'static str = "'nodus|10|true|true|false|false|'********|null|null";

/// The rows of `pg_collation`.
pub const PG_COLLATION_ROWS: &'static str = "100|'default|$catalog|10|'d|true|-1|null|null|null|null\n950|'C|$catalog|10|'c|true|-1|\
    'C|'C|null|null";

/// The rows of `pg_operator`.
pub const PG_OPERATOR_ROWS: &'static str = "96|'=|$catalog|10|'b|false|true|23|23|16|0|0|'-|'-|'-\n97|'<|$catalog|10|'b|false|false|\
    23|23|16|0|0|'-|'-|'-\n521|'>|$catalog|10|'b|false|false|23|23|16|0|0|'-|'-|'-\n98|'=|\
    $catalog|10|'b|false|true|25|25|16|0|0|'-|'-|'-";

/// The rows of `pg_cast`.
pub const PG_CAST_ROWS: &'static str = "10000|23|20|0|'a|'f\n10001|23|25|0|'a|'f\n10002|20|25|0|'a|'f\n10003|25|23|0|'a|'f\n\
    10004|25|20|0|'a|'f\n10005|1043|25|0|'a|'f\n10006|25|1043|0|'a|'f\n10007|114|3802|0|'a|\
    'f";

/// A system table written out: its columns and its rows.
pub open spec fn written_table(name: Seq<char>) -> Option<(Seq<char>, Seq<char>)> {
    if name == "pg_database"@ {
        Some((PG_DATABASE_COLUMNS@, PG_DATABASE_ROWS@))
    } else if name == "pg_proc"@ {
        Some((PG_PROC_COLUMNS@, PG_PROC_ROWS@))
    } else if name == "pg_range"@ {
        Some((PG_RANGE_COLUMNS@, ""@))
    } else if name == "pg_description"@ {
        Some((PG_DESCRIPTION_COLUMNS@, ""@))
    } else if name == "pg_shdescription"@ {
        Some((PG_SHDESCRIPTION_COLUMNS@, ""@))
    } else if name == "pg_enum"@ {
        Some((PG_ENUM_COLUMNS@, ""@))
    } else if name == "pg_am"@ {
        Some((PG_AM_COLUMNS@, PG_AM_ROWS@))
    } else if name == "pg_timezone_names"@ {
        Some((PG_TIMEZONE_NAMES_COLUMNS@, PG_TIMEZONE_NAMES_ROWS@))
    } else if name == "pg_timezone_abbrevs"@ {
        Some((PG_TIMEZONE_ABBREVS_COLUMNS@, PG_TIMEZONE_ABBREVS_ROWS@))
    } else if name == "pg_auth_members"@ {
        Some((PG_AUTH_MEMBERS_COLUMNS@, ""@))
    } else if name == "pg_tablespace"@ {
        Some((PG_TABLESPACE_COLUMNS@, PG_TABLESPACE_ROWS@))
    } else if name == "pg_extension"@ {
        Some((PG_EXTENSION_COLUMNS@, PG_EXTENSION_ROWS@))
    } else if name == "pg_event_trigger"@ {
        Some((PG_EVENT_TRIGGER_COLUMNS@, ""@))
    } else if name == "pg_language"@ {
        Some((PG_LANGUAGE_COLUMNS@, PG_LANGUAGE_ROWS@))
    } else if name == "pg_foreign_data_wrapper"@ {
        Some((PG_FOREIGN_DATA_WRAPPER_COLUMNS@, ""@))
    } else if name == "pg_foreign_server"@ {
        Some((PG_FOREIGN_SERVER_COLUMNS@, ""@))
    } else if name == "pg_user_mapping"@ {
        Some((PG_USER_MAPPING_COLUMNS@, ""@))
    } else if name == "pg_available_extensions"@ {
        Some((PG_AVAILABLE_EXTENSIONS_COLUMNS@, PG_AVAILABLE_EXTENSIONS_ROWS@))
    } else if name == "pg_available_extension_versions"@ {
        Some((PG_AVAILABLE_EXTENSION_VERSIONS_COLUMNS@, PG_AVAILABLE_EXTENSION_VERSIONS_ROWS@))
    } else if name == "pg_opclass"@ {
        Some((PG_OPCLASS_COLUMNS@, ""@))
    } else if name == "pg_opfamily"@ {
        Some((PG_OPFAMILY_COLUMNS@, ""@))
    } else if name == "pg_amop"@ {
        Some((PG_AMOP_COLUMNS@, ""@))
    } else if name == "pg_amproc"@ {
        Some((PG_AMPROC_COLUMNS@, ""@))
    } else if name == "pg_aggregate"@ {
        Some((PG_AGGREGATE_COLUMNS@, ""@))
    } else if name == "pg_foreign_table"@ {
        Some((PG_FOREIGN_TABLE_COLUMNS@, ""@))
    } else if name == "pg_rewrite"@ {
        Some((PG_REWRITE_COLUMNS@, ""@))
    } else if name == "pg_policy"@ {
        Some((PG_POLICY_COLUMNS@, ""@))
    } else if name == "pg_trigger"@ {
        Some((PG_TRIGGER_COLUMNS@, ""@))
    } else if name == "pg_statistic_ext"@ {
        Some((PG_STATISTIC_EXT_COLUMNS@, ""@))
    } else if name == "pg_publication"@ {
        Some((PG_PUBLICATION_COLUMNS@, ""@))
    } else if name == "pg_publication_namespace"@ {
        Some((PG_PUBLICATION_NAMESPACE_COLUMNS@, ""@))
    } else if name == "pg_publication_rel"@ {
        Some((PG_PUBLICATION_REL_COLUMNS@, ""@))
    } else if name == "pg_inherits"@ {
        Some((PG_INHERITS_COLUMNS@, ""@))
    } else if name == "pg_roles"@ {
        Some((PG_ROLES_COLUMNS@, PG_ROLES_ROWS@))
    } else if name == "pg_user"@ {
        Some((PG_USER_COLUMNS@, PG_USER_ROWS@))
    } else if name == "pg_collation"@ {
        Some((PG_COLLATION_COLUMNS@, PG_COLLATION_ROWS@))
    } else if name == "pg_operator"@ {
        Some((PG_OPERATOR_COLUMNS@, PG_OPERATOR_ROWS@))
    } else if name == "pg_cast"@ {
        Some((PG_CAST_COLUMNS@, PG_CAST_ROWS@))
    } else {
        None
    }
}

/// A system table written out: its columns and its rows.
pub fn find_written_table(name: &str) -> (r: Option<(&'static str, &'static str)>)
    ensures
        match (r, written_table(name@)) {
            (Some((a, b)), Some((c, d))) => a@ == c && b@ == d,
            (None, None) => true,
            _ => false,
        },
{
    if same_text(name, "pg_database") {
        Some((PG_DATABASE_COLUMNS, PG_DATABASE_ROWS))
    } else if same_text(name, "pg_proc") {
        Some((PG_PROC_COLUMNS, PG_PROC_ROWS))
    } else if same_text(name, "pg_range") {
        Some((PG_RANGE_COLUMNS, ""))
    } else if same_text(name, "pg_description") {
        Some((PG_DESCRIPTION_COLUMNS, ""))
    } else if same_text(name, "pg_shdescription") {
        Some((PG_SHDESCRIPTION_COLUMNS, ""))
    } else if same_text(name, "pg_enum") {
        Some((PG_ENUM_COLUMNS, ""))
    } else if same_text(name, "pg_am") {
        Some((PG_AM_COLUMNS, PG_AM_ROWS))
    } else if same_text(name, "pg_timezone_names") {
        Some((PG_TIMEZONE_NAMES_COLUMNS, PG_TIMEZONE_NAMES_ROWS))
    } else if same_text(name, "pg_timezone_abbrevs") {
        Some((PG_TIMEZONE_ABBREVS_COLUMNS, PG_TIMEZONE_ABBREVS_ROWS))
    } else if same_text(name, "pg_auth_members") {
        Some((PG_AUTH_MEMBERS_COLUMNS, ""))
    } else if same_text(name, "pg_tablespace") {
        Some((PG_TABLESPACE_COLUMNS, PG_TABLESPACE_ROWS))
    } else if same_text(name, "pg_extension") {
        Some((PG_EXTENSION_COLUMNS, PG_EXTENSION_ROWS))
    } else if same_text(name, "pg_event_trigger") {
        Some((PG_EVENT_TRIGGER_COLUMNS, ""))
    } else if same_text(name, "pg_language") {
        Some((PG_LANGUAGE_COLUMNS, PG_LANGUAGE_ROWS))
    } else if same_text(name, "pg_foreign_data_wrapper") {
        Some((PG_FOREIGN_DATA_WRAPPER_COLUMNS, ""))
    } else if same_text(name, "pg_foreign_server") {
        Some((PG_FOREIGN_SERVER_COLUMNS, ""))
    } else if same_text(name, "pg_user_mapping") {
        Some((PG_USER_MAPPING_COLUMNS, ""))
    } else if same_text(name, "pg_available_extensions") {
        Some((PG_AVAILABLE_EXTENSIONS_COLUMNS, PG_AVAILABLE_EXTENSIONS_ROWS))
    } else if same_text(name, "pg_available_extension_versions") {
        Some((PG_AVAILABLE_EXTENSION_VERSIONS_COLUMNS, PG_AVAILABLE_EXTENSION_VERSIONS_ROWS))
    } else if same_text(name, "pg_opclass") {
        Some((PG_OPCLASS_COLUMNS, ""))
    } else if same_text(name, "pg_opfamily") {
        Some((PG_OPFAMILY_COLUMNS, ""))
    } else if same_text(name, "pg_amop") {
        Some((PG_AMOP_COLUMNS, ""))
    } else if same_text(name, "pg_amproc") {
        Some((PG_AMPROC_COLUMNS, ""))
    } else if same_text(name, "pg_aggregate") {
        Some((PG_AGGREGATE_COLUMNS, ""))
    } else if same_text(name, "pg_foreign_table") {
        Some((PG_FOREIGN_TABLE_COLUMNS, ""))
    } else if same_text(name, "pg_rewrite") {
        Some((PG_REWRITE_COLUMNS, ""))
    } else if same_text(name, "pg_policy") {
        Some((PG_POLICY_COLUMNS, ""))
    } else if same_text(name, "pg_trigger") {
        Some((PG_TRIGGER_COLUMNS, ""))
    } else if same_text(name, "pg_statistic_ext") {
        Some((PG_STATISTIC_EXT_COLUMNS, ""))
    } else if same_text(name, "pg_publication") {
        Some((PG_PUBLICATION_COLUMNS, ""))
    } else if same_text(name, "pg_publication_namespace") {
        Some((PG_PUBLICATION_NAMESPACE_COLUMNS, ""))
    } else if same_text(name, "pg_publication_rel") {
        Some((PG_PUBLICATION_REL_COLUMNS, ""))
    } else if same_text(name, "pg_inherits") {
        Some((PG_INHERITS_COLUMNS, ""))
    } else if same_text(name, "pg_roles") {
        Some((PG_ROLES_COLUMNS, PG_ROLES_ROWS))
    } else if same_text(name, "pg_user") {
        Some((PG_USER_COLUMNS, PG_USER_ROWS))
    } else if same_text(name, "pg_collation") {
        Some((PG_COLLATION_COLUMNS, PG_COLLATION_ROWS))
    } else if same_text(name, "pg_operator") {
        Some((PG_OPERATOR_COLUMNS, PG_OPERATOR_ROWS))
    } else if same_text(name, "pg_cast") {
        Some((PG_CAST_COLUMNS, PG_CAST_ROWS))
    } else {
        None
    }
}

} // verus!
