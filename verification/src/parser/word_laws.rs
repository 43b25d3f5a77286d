use vstd::prelude::*;
use super::token::{Kind, TokenView, keyword_of, keyword_part0, keyword_part1, keyword_part2, keyword_part3};

verus! {

/// The words of the language, told apart by how long they are and by some of their characters.
proof fn lemma_words()
    ensures
        "EXPLAIN"@.len() == 7 && "EXPLAIN"@[0] == 'E' && "EXPLAIN"@[1] == 'X' && "EXPLAIN"@[2] == 'P' && "EXPLAIN"@[3] == 'L' && "EXPLAIN"@[5] == 'I',
        "WITH"@.len() == 4 && "WITH"@[0] == 'W' && "WITH"@[1] == 'I' && "WITH"@[2] == 'T' && "WITH"@[3] == 'H',
        "RECURSIVE"@.len() == 9 && "RECURSIVE"@[0] == 'R' && "RECURSIVE"@[2] == 'C' && "RECURSIVE"@[5] == 'S',
        "SELECT"@.len() == 6 && "SELECT"@[0] == 'S' && "SELECT"@[1] == 'E' && "SELECT"@[2] == 'L' && "SELECT"@[3] == 'E' && "SELECT"@[4] == 'C' && "SELECT"@[5] == 'T',
        "INSERT"@.len() == 6 && "INSERT"@[0] == 'I' && "INSERT"@[1] == 'N' && "INSERT"@[2] == 'S' && "INSERT"@[3] == 'E' && "INSERT"@[4] == 'R' && "INSERT"@[5] == 'T',
        "UPDATE"@.len() == 6 && "UPDATE"@[0] == 'U' && "UPDATE"@[1] == 'P' && "UPDATE"@[2] == 'D' && "UPDATE"@[3] == 'A' && "UPDATE"@[4] == 'T' && "UPDATE"@[5] == 'E',
        "DELETE"@.len() == 6 && "DELETE"@[0] == 'D' && "DELETE"@[1] == 'E' && "DELETE"@[2] == 'L' && "DELETE"@[3] == 'E' && "DELETE"@[4] == 'T' && "DELETE"@[5] == 'E',
        "CREATE"@.len() == 6 && "CREATE"@[0] == 'C' && "CREATE"@[1] == 'R' && "CREATE"@[2] == 'E' && "CREATE"@[3] == 'A' && "CREATE"@[4] == 'T' && "CREATE"@[5] == 'E',
        "DROP"@.len() == 4 && "DROP"@[0] == 'D' && "DROP"@[1] == 'R' && "DROP"@[2] == 'O' && "DROP"@[3] == 'P',
        "ALTER"@.len() == 5 && "ALTER"@[0] == 'A' && "ALTER"@[1] == 'L' && "ALTER"@[2] == 'T' && "ALTER"@[3] == 'E' && "ALTER"@[4] == 'R',
        "BEGIN"@.len() == 5 && "BEGIN"@[0] == 'B' && "BEGIN"@[1] == 'E' && "BEGIN"@[2] == 'G' && "BEGIN"@[3] == 'I' && "BEGIN"@[4] == 'N',
        "COMMIT"@.len() == 6 && "COMMIT"@[0] == 'C' && "COMMIT"@[1] == 'O' && "COMMIT"@[2] == 'M' && "COMMIT"@[3] == 'M' && "COMMIT"@[4] == 'I' && "COMMIT"@[5] == 'T',
        "ROLLBACK"@.len() == 8 && "ROLLBACK"@[0] == 'R' && "ROLLBACK"@[1] == 'O' && "ROLLBACK"@[2] == 'L',
        "KV"@.len() == 2 && "KV"@[0] == 'K' && "KV"@[1] == 'V',
        "DOC"@.len() == 3 && "DOC"@[0] == 'D' && "DOC"@[1] == 'O' && "DOC"@[2] == 'C',
        "SHOW"@.len() == 4 && "SHOW"@[0] == 'S' && "SHOW"@[1] == 'H' && "SHOW"@[2] == 'O' && "SHOW"@[3] == 'W',
        "TRUNCATE"@.len() == 8 && "TRUNCATE"@[0] == 'T' && "TRUNCATE"@[1] == 'R' && "TRUNCATE"@[2] == 'U',
        "USE"@.len() == 3 && "USE"@[0] == 'U' && "USE"@[1] == 'S' && "USE"@[2] == 'E',
        "DATABASE"@.len() == 8 && "DATABASE"@[0] == 'D' && "DATABASE"@[1] == 'A' && "DATABASE"@[2] == 'T',
        "ANALYZE"@.len() == 7 && "ANALYZE"@[0] == 'A' && "ANALYZE"@[1] == 'N' && "ANALYZE"@[2] == 'A' && "ANALYZE"@[3] == 'L' && "ANALYZE"@[5] == 'Z',
        "BACKUP"@.len() == 6 && "BACKUP"@[0] == 'B' && "BACKUP"@[1] == 'A' && "BACKUP"@[2] == 'C' && "BACKUP"@[3] == 'K' && "BACKUP"@[4] == 'U' && "BACKUP"@[5] == 'P',
        "RESTORE"@.len() == 7 && "RESTORE"@[0] == 'R' && "RESTORE"@[1] == 'E' && "RESTORE"@[2] == 'S' && "RESTORE"@[3] == 'T' && "RESTORE"@[5] == 'R',
        "MIGRATE"@.len() == 7 && "MIGRATE"@[0] == 'M' && "MIGRATE"@[1] == 'I' && "MIGRATE"@[2] == 'G' && "MIGRATE"@[3] == 'R' && "MIGRATE"@[5] == 'T',
        "TO"@.len() == 2 && "TO"@[0] == 'T' && "TO"@[1] == 'O',
        "FROM"@.len() == 4 && "FROM"@[0] == 'F' && "FROM"@[1] == 'R' && "FROM"@[2] == 'O' && "FROM"@[3] == 'M',
        "LSN"@.len() == 3 && "LSN"@[0] == 'L' && "LSN"@[1] == 'S' && "LSN"@[2] == 'N',
        "AS"@.len() == 2 && "AS"@[0] == 'A' && "AS"@[1] == 'S',
        "DISTINCT"@.len() == 8 && "DISTINCT"@[0] == 'D' && "DISTINCT"@[1] == 'I' && "DISTINCT"@[2] == 'S',
        "WHERE"@.len() == 5 && "WHERE"@[0] == 'W' && "WHERE"@[1] == 'H' && "WHERE"@[2] == 'E' && "WHERE"@[3] == 'R' && "WHERE"@[4] == 'E',
        "GROUP"@.len() == 5 && "GROUP"@[0] == 'G' && "GROUP"@[1] == 'R' && "GROUP"@[2] == 'O' && "GROUP"@[3] == 'U' && "GROUP"@[4] == 'P',
        "BY"@.len() == 2 && "BY"@[0] == 'B' && "BY"@[1] == 'Y',
        "HAVING"@.len() == 6 && "HAVING"@[0] == 'H' && "HAVING"@[1] == 'A' && "HAVING"@[2] == 'V' && "HAVING"@[3] == 'I' && "HAVING"@[4] == 'N' && "HAVING"@[5] == 'G',
        "ORDER"@.len() == 5 && "ORDER"@[0] == 'O' && "ORDER"@[1] == 'R' && "ORDER"@[2] == 'D' && "ORDER"@[3] == 'E' && "ORDER"@[4] == 'R',
        "LIMIT"@.len() == 5 && "LIMIT"@[0] == 'L' && "LIMIT"@[1] == 'I' && "LIMIT"@[2] == 'M' && "LIMIT"@[3] == 'I' && "LIMIT"@[4] == 'T',
        "OFFSET"@.len() == 6 && "OFFSET"@[0] == 'O' && "OFFSET"@[1] == 'F' && "OFFSET"@[2] == 'F' && "OFFSET"@[3] == 'S' && "OFFSET"@[4] == 'E' && "OFFSET"@[5] == 'T',
        "JOIN"@.len() == 4 && "JOIN"@[0] == 'J' && "JOIN"@[1] == 'O' && "JOIN"@[2] == 'I' && "JOIN"@[3] == 'N',
        "INNER"@.len() == 5 && "INNER"@[0] == 'I' && "INNER"@[1] == 'N' && "INNER"@[2] == 'N' && "INNER"@[3] == 'E' && "INNER"@[4] == 'R',
        "LEFT"@.len() == 4 && "LEFT"@[0] == 'L' && "LEFT"@[1] == 'E' && "LEFT"@[2] == 'F' && "LEFT"@[3] == 'T',
        "RIGHT"@.len() == 5 && "RIGHT"@[0] == 'R' && "RIGHT"@[1] == 'I' && "RIGHT"@[2] == 'G' && "RIGHT"@[3] == 'H' && "RIGHT"@[4] == 'T',
        "ON"@.len() == 2 && "ON"@[0] == 'O' && "ON"@[1] == 'N',
        "DESC"@.len() == 4 && "DESC"@[0] == 'D' && "DESC"@[1] == 'E' && "DESC"@[2] == 'S' && "DESC"@[3] == 'C',
        "ASC"@.len() == 3 && "ASC"@[0] == 'A' && "ASC"@[1] == 'S' && "ASC"@[2] == 'C',
        "NULLS"@.len() == 5 && "NULLS"@[0] == 'N' && "NULLS"@[1] == 'U' && "NULLS"@[2] == 'L' && "NULLS"@[3] == 'L' && "NULLS"@[4] == 'S',
        "FIRST"@.len() == 5 && "FIRST"@[0] == 'F' && "FIRST"@[1] == 'I' && "FIRST"@[2] == 'R' && "FIRST"@[3] == 'S' && "FIRST"@[4] == 'T',
        "LAST"@.len() == 4 && "LAST"@[0] == 'L' && "LAST"@[1] == 'A' && "LAST"@[2] == 'S' && "LAST"@[3] == 'T',
        "INTO"@.len() == 4 && "INTO"@[0] == 'I' && "INTO"@[1] == 'N' && "INTO"@[2] == 'T' && "INTO"@[3] == 'O',
        "VALUES"@.len() == 6 && "VALUES"@[0] == 'V' && "VALUES"@[1] == 'A' && "VALUES"@[2] == 'L' && "VALUES"@[3] == 'U' && "VALUES"@[4] == 'E' && "VALUES"@[5] == 'S',
        "CONFLICT"@.len() == 8 && "CONFLICT"@[0] == 'C' && "CONFLICT"@[1] == 'O' && "CONFLICT"@[2] == 'N',
        "DO"@.len() == 2 && "DO"@[0] == 'D' && "DO"@[1] == 'O',
        "NOTHING"@.len() == 7 && "NOTHING"@[0] == 'N' && "NOTHING"@[1] == 'O' && "NOTHING"@[2] == 'T' && "NOTHING"@[3] == 'H' && "NOTHING"@[5] == 'N',
        "SET"@.len() == 3 && "SET"@[0] == 'S' && "SET"@[1] == 'E' && "SET"@[2] == 'T',
        "RETURNING"@.len() == 9 && "RETURNING"@[0] == 'R' && "RETURNING"@[2] == 'T' && "RETURNING"@[5] == 'N',
        "UNIQUE"@.len() == 6 && "UNIQUE"@[0] == 'U' && "UNIQUE"@[1] == 'N' && "UNIQUE"@[2] == 'I' && "UNIQUE"@[3] == 'Q' && "UNIQUE"@[4] == 'U' && "UNIQUE"@[5] == 'E',
        "INDEX"@.len() == 5 && "INDEX"@[0] == 'I' && "INDEX"@[1] == 'N' && "INDEX"@[2] == 'D' && "INDEX"@[3] == 'E' && "INDEX"@[4] == 'X',
        "TABLE"@.len() == 5 && "TABLE"@[0] == 'T' && "TABLE"@[1] == 'A' && "TABLE"@[2] == 'B' && "TABLE"@[3] == 'L' && "TABLE"@[4] == 'E',
        "IF"@.len() == 2 && "IF"@[0] == 'I' && "IF"@[1] == 'F',
        "NOT"@.len() == 3 && "NOT"@[0] == 'N' && "NOT"@[1] == 'O' && "NOT"@[2] == 'T',
        "EXISTS"@.len() == 6 && "EXISTS"@[0] == 'E' && "EXISTS"@[1] == 'X' && "EXISTS"@[2] == 'I' && "EXISTS"@[3] == 'S' && "EXISTS"@[4] == 'T' && "EXISTS"@[5] == 'S',
        "PRIMARY"@.len() == 7 && "PRIMARY"@[0] == 'P' && "PRIMARY"@[1] == 'R' && "PRIMARY"@[2] == 'I' && "PRIMARY"@[3] == 'M' && "PRIMARY"@[5] == 'R',
        "KEY"@.len() == 3 && "KEY"@[0] == 'K' && "KEY"@[1] == 'E' && "KEY"@[2] == 'Y',
        "DEFAULT"@.len() == 7 && "DEFAULT"@[0] == 'D' && "DEFAULT"@[1] == 'E' && "DEFAULT"@[2] == 'F' && "DEFAULT"@[3] == 'A' && "DEFAULT"@[5] == 'L',
        "ADD"@.len() == 3 && "ADD"@[0] == 'A' && "ADD"@[1] == 'D' && "ADD"@[2] == 'D',
        "COLUMN"@.len() == 6 && "COLUMN"@[0] == 'C' && "COLUMN"@[1] == 'O' && "COLUMN"@[2] == 'L' && "COLUMN"@[3] == 'U' && "COLUMN"@[4] == 'M' && "COLUMN"@[5] == 'N',
        "RENAME"@.len() == 6 && "RENAME"@[0] == 'R' && "RENAME"@[1] == 'E' && "RENAME"@[2] == 'N' && "RENAME"@[3] == 'A' && "RENAME"@[4] == 'M' && "RENAME"@[5] == 'E',
        "SERIALIZABLE"@.len() == 12,
        "UNION"@.len() == 5 && "UNION"@[0] == 'U' && "UNION"@[1] == 'N' && "UNION"@[2] == 'I' && "UNION"@[3] == 'O' && "UNION"@[4] == 'N',
        "ALL"@.len() == 3 && "ALL"@[0] == 'A' && "ALL"@[1] == 'L' && "ALL"@[2] == 'L',
        "INTERSECT"@.len() == 9 && "INTERSECT"@[0] == 'I' && "INTERSECT"@[2] == 'T' && "INTERSECT"@[5] == 'S',
        "EXCEPT"@.len() == 6 && "EXCEPT"@[0] == 'E' && "EXCEPT"@[1] == 'X' && "EXCEPT"@[2] == 'C' && "EXCEPT"@[3] == 'E' && "EXCEPT"@[4] == 'P' && "EXCEPT"@[5] == 'T',
        "TABLES"@.len() == 6 && "TABLES"@[0] == 'T' && "TABLES"@[1] == 'A' && "TABLES"@[2] == 'B' && "TABLES"@[3] == 'L' && "TABLES"@[4] == 'E' && "TABLES"@[5] == 'S',
        "COLUMNS"@.len() == 7 && "COLUMNS"@[0] == 'C' && "COLUMNS"@[1] == 'O' && "COLUMNS"@[2] == 'L' && "COLUMNS"@[3] == 'U' && "COLUMNS"@[5] == 'N',
        "GET"@.len() == 3 && "GET"@[0] == 'G' && "GET"@[1] == 'E' && "GET"@[2] == 'T',
        "SCAN"@.len() == 4 && "SCAN"@[0] == 'S' && "SCAN"@[1] == 'C' && "SCAN"@[2] == 'A' && "SCAN"@[3] == 'N',
        "FIND"@.len() == 4 && "FIND"@[0] == 'F' && "FIND"@[1] == 'I' && "FIND"@[2] == 'N' && "FIND"@[3] == 'D',
        "IN"@.len() == 2 && "IN"@[0] == 'I' && "IN"@[1] == 'N',
        "OR"@.len() == 2 && "OR"@[0] == 'O' && "OR"@[1] == 'R',
        "AND"@.len() == 3 && "AND"@[0] == 'A' && "AND"@[1] == 'N' && "AND"@[2] == 'D',
        "LIKE"@.len() == 4 && "LIKE"@[0] == 'L' && "LIKE"@[1] == 'I' && "LIKE"@[2] == 'K' && "LIKE"@[3] == 'E',
        "ILIKE"@.len() == 5 && "ILIKE"@[0] == 'I' && "ILIKE"@[1] == 'L' && "ILIKE"@[2] == 'I' && "ILIKE"@[3] == 'K' && "ILIKE"@[4] == 'E',
        "IS"@.len() == 2 && "IS"@[0] == 'I' && "IS"@[1] == 'S',
        "BETWEEN"@.len() == 7 && "BETWEEN"@[0] == 'B' && "BETWEEN"@[1] == 'E' && "BETWEEN"@[2] == 'T' && "BETWEEN"@[3] == 'W' && "BETWEEN"@[5] == 'E',
        "CASE"@.len() == 4 && "CASE"@[0] == 'C' && "CASE"@[1] == 'A' && "CASE"@[2] == 'S' && "CASE"@[3] == 'E',
        "WHEN"@.len() == 4 && "WHEN"@[0] == 'W' && "WHEN"@[1] == 'H' && "WHEN"@[2] == 'E' && "WHEN"@[3] == 'N',
        "THEN"@.len() == 4 && "THEN"@[0] == 'T' && "THEN"@[1] == 'H' && "THEN"@[2] == 'E' && "THEN"@[3] == 'N',
        "ELSE"@.len() == 4 && "ELSE"@[0] == 'E' && "ELSE"@[1] == 'L' && "ELSE"@[2] == 'S' && "ELSE"@[3] == 'E',
        "END"@.len() == 3 && "END"@[0] == 'E' && "END"@[1] == 'N' && "END"@[2] == 'D',
        "CAST"@.len() == 4 && "CAST"@[0] == 'C' && "CAST"@[1] == 'A' && "CAST"@[2] == 'S' && "CAST"@[3] == 'T',
        "OVER"@.len() == 4 && "OVER"@[0] == 'O' && "OVER"@[1] == 'V' && "OVER"@[2] == 'E' && "OVER"@[3] == 'R',
        "PARTITION"@.len() == 9 && "PARTITION"@[0] == 'P' && "PARTITION"@[2] == 'R' && "PARTITION"@[5] == 'T',
        "INTERVAL"@.len() == 8 && "INTERVAL"@[0] == 'I' && "INTERVAL"@[1] == 'N' && "INTERVAL"@[2] == 'T',
        "INT"@.len() == 3 && "INT"@[0] == 'I' && "INT"@[1] == 'N' && "INT"@[2] == 'T',
        "INTEGER"@.len() == 7 && "INTEGER"@[0] == 'I' && "INTEGER"@[1] == 'N' && "INTEGER"@[2] == 'T' && "INTEGER"@[3] == 'E' && "INTEGER"@[5] == 'E',
        "BIGINT"@.len() == 6 && "BIGINT"@[0] == 'B' && "BIGINT"@[1] == 'I' && "BIGINT"@[2] == 'G' && "BIGINT"@[3] == 'I' && "BIGINT"@[4] == 'N' && "BIGINT"@[5] == 'T',
        "SMALLINT"@.len() == 8 && "SMALLINT"@[0] == 'S' && "SMALLINT"@[1] == 'M' && "SMALLINT"@[2] == 'A',
        "SERIAL"@.len() == 6 && "SERIAL"@[0] == 'S' && "SERIAL"@[1] == 'E' && "SERIAL"@[2] == 'R' && "SERIAL"@[3] == 'I' && "SERIAL"@[4] == 'A' && "SERIAL"@[5] == 'L',
        "FLOAT"@.len() == 5 && "FLOAT"@[0] == 'F' && "FLOAT"@[1] == 'L' && "FLOAT"@[2] == 'O' && "FLOAT"@[3] == 'A' && "FLOAT"@[4] == 'T',
        "REAL"@.len() == 4 && "REAL"@[0] == 'R' && "REAL"@[1] == 'E' && "REAL"@[2] == 'A' && "REAL"@[3] == 'L',
        "DOUBLE"@.len() == 6 && "DOUBLE"@[0] == 'D' && "DOUBLE"@[1] == 'O' && "DOUBLE"@[2] == 'U' && "DOUBLE"@[3] == 'B' && "DOUBLE"@[4] == 'L' && "DOUBLE"@[5] == 'E',
        "NUMERIC"@.len() == 7 && "NUMERIC"@[0] == 'N' && "NUMERIC"@[1] == 'U' && "NUMERIC"@[2] == 'M' && "NUMERIC"@[3] == 'E' && "NUMERIC"@[5] == 'I',
        "DECIMAL"@.len() == 7 && "DECIMAL"@[0] == 'D' && "DECIMAL"@[1] == 'E' && "DECIMAL"@[2] == 'C' && "DECIMAL"@[3] == 'I' && "DECIMAL"@[5] == 'A',
        "TEXT"@.len() == 4 && "TEXT"@[0] == 'T' && "TEXT"@[1] == 'E' && "TEXT"@[2] == 'X' && "TEXT"@[3] == 'T',
        "VARCHAR"@.len() == 7 && "VARCHAR"@[0] == 'V' && "VARCHAR"@[1] == 'A' && "VARCHAR"@[2] == 'R' && "VARCHAR"@[3] == 'C' && "VARCHAR"@[5] == 'A',
        "BOOL"@.len() == 4 && "BOOL"@[0] == 'B' && "BOOL"@[1] == 'O' && "BOOL"@[2] == 'O' && "BOOL"@[3] == 'L',
        "BOOLEAN"@.len() == 7 && "BOOLEAN"@[0] == 'B' && "BOOLEAN"@[1] == 'O' && "BOOLEAN"@[2] == 'O' && "BOOLEAN"@[3] == 'L' && "BOOLEAN"@[5] == 'A',
        "BYTES"@.len() == 5 && "BYTES"@[0] == 'B' && "BYTES"@[1] == 'Y' && "BYTES"@[2] == 'T' && "BYTES"@[3] == 'E' && "BYTES"@[4] == 'S',
        "BLOB"@.len() == 4 && "BLOB"@[0] == 'B' && "BLOB"@[1] == 'L' && "BLOB"@[2] == 'O' && "BLOB"@[3] == 'B',
        "JSON"@.len() == 4 && "JSON"@[0] == 'J' && "JSON"@[1] == 'S' && "JSON"@[2] == 'O' && "JSON"@[3] == 'N',
        "TIMESTAMP"@.len() == 9 && "TIMESTAMP"@[0] == 'T' && "TIMESTAMP"@[2] == 'M' && "TIMESTAMP"@[5] == 'T',
        "DATE"@.len() == 4 && "DATE"@[0] == 'D' && "DATE"@[1] == 'A' && "DATE"@[2] == 'T' && "DATE"@[3] == 'E',
        "UUID"@.len() == 4 && "UUID"@[0] == 'U' && "UUID"@[1] == 'U' && "UUID"@[2] == 'I' && "UUID"@[3] == 'D',
        "ROWS"@.len() == 4 && "ROWS"@[0] == 'R' && "ROWS"@[1] == 'O' && "ROWS"@[2] == 'W' && "ROWS"@[3] == 'S',
        "ROW"@.len() == 3 && "ROW"@[0] == 'R' && "ROW"@[1] == 'O' && "ROW"@[2] == 'W',
        "CASCADE"@.len() == 7 && "CASCADE"@[0] == 'C' && "CASCADE"@[1] == 'A' && "CASCADE"@[2] == 'S' && "CASCADE"@[3] == 'C' && "CASCADE"@[5] == 'D',
        "RESTRICT"@.len() == 8 && "RESTRICT"@[0] == 'R' && "RESTRICT"@[1] == 'E' && "RESTRICT"@[2] == 'S',
        "TRUE"@.len() == 4 && "TRUE"@[0] == 'T' && "TRUE"@[1] == 'R' && "TRUE"@[2] == 'U' && "TRUE"@[3] == 'E',
        "FALSE"@.len() == 5 && "FALSE"@[0] == 'F' && "FALSE"@[1] == 'A' && "FALSE"@[2] == 'L' && "FALSE"@[3] == 'S' && "FALSE"@[4] == 'E',
        "NULL"@.len() == 4 && "NULL"@[0] == 'N' && "NULL"@[1] == 'U' && "NULL"@[2] == 'L' && "NULL"@[3] == 'L',
{
    reveal_strlit("EXPLAIN");
    reveal_strlit("WITH");
    reveal_strlit("RECURSIVE");
    reveal_strlit("SELECT");
    reveal_strlit("INSERT");
    reveal_strlit("UPDATE");
    reveal_strlit("DELETE");
    reveal_strlit("CREATE");
    reveal_strlit("DROP");
    reveal_strlit("ALTER");
    reveal_strlit("BEGIN");
    reveal_strlit("COMMIT");
    reveal_strlit("ROLLBACK");
    reveal_strlit("KV");
    reveal_strlit("DOC");
    reveal_strlit("SHOW");
    reveal_strlit("TRUNCATE");
    reveal_strlit("USE");
    reveal_strlit("DATABASE");
    reveal_strlit("ANALYZE");
    reveal_strlit("BACKUP");
    reveal_strlit("RESTORE");
    reveal_strlit("MIGRATE");
    reveal_strlit("TO");
    reveal_strlit("FROM");
    reveal_strlit("LSN");
    reveal_strlit("AS");
    reveal_strlit("DISTINCT");
    reveal_strlit("WHERE");
    reveal_strlit("GROUP");
    reveal_strlit("BY");
    reveal_strlit("HAVING");
    reveal_strlit("ORDER");
    reveal_strlit("LIMIT");
    reveal_strlit("OFFSET");
    reveal_strlit("JOIN");
    reveal_strlit("INNER");
    reveal_strlit("LEFT");
    reveal_strlit("RIGHT");
    reveal_strlit("ON");
    reveal_strlit("DESC");
    reveal_strlit("ASC");
    reveal_strlit("NULLS");
    reveal_strlit("FIRST");
    reveal_strlit("LAST");
    reveal_strlit("INTO");
    reveal_strlit("VALUES");
    reveal_strlit("CONFLICT");
    reveal_strlit("DO");
    reveal_strlit("NOTHING");
    reveal_strlit("SET");
    reveal_strlit("RETURNING");
    reveal_strlit("UNIQUE");
    reveal_strlit("INDEX");
    reveal_strlit("TABLE");
    reveal_strlit("IF");
    reveal_strlit("NOT");
    reveal_strlit("EXISTS");
    reveal_strlit("PRIMARY");
    reveal_strlit("KEY");
    reveal_strlit("DEFAULT");
    reveal_strlit("ADD");
    reveal_strlit("COLUMN");
    reveal_strlit("RENAME");
    reveal_strlit("SERIALIZABLE");
    reveal_strlit("UNION");
    reveal_strlit("ALL");
    reveal_strlit("INTERSECT");
    reveal_strlit("EXCEPT");
    reveal_strlit("TABLES");
    reveal_strlit("COLUMNS");
    reveal_strlit("GET");
    reveal_strlit("SCAN");
    reveal_strlit("FIND");
    reveal_strlit("IN");
    reveal_strlit("OR");
    reveal_strlit("AND");
    reveal_strlit("LIKE");
    reveal_strlit("ILIKE");
    reveal_strlit("IS");
    reveal_strlit("BETWEEN");
    reveal_strlit("CASE");
    reveal_strlit("WHEN");
    reveal_strlit("THEN");
    reveal_strlit("ELSE");
    reveal_strlit("END");
    reveal_strlit("CAST");
    reveal_strlit("OVER");
    reveal_strlit("PARTITION");
    reveal_strlit("INTERVAL");
    reveal_strlit("INT");
    reveal_strlit("INTEGER");
    reveal_strlit("BIGINT");
    reveal_strlit("SMALLINT");
    reveal_strlit("SERIAL");
    reveal_strlit("FLOAT");
    reveal_strlit("REAL");
    reveal_strlit("DOUBLE");
    reveal_strlit("NUMERIC");
    reveal_strlit("DECIMAL");
    reveal_strlit("TEXT");
    reveal_strlit("VARCHAR");
    reveal_strlit("BOOL");
    reveal_strlit("BOOLEAN");
    reveal_strlit("BYTES");
    reveal_strlit("BLOB");
    reveal_strlit("JSON");
    reveal_strlit("TIMESTAMP");
    reveal_strlit("DATE");
    reveal_strlit("UUID");
    reveal_strlit("ROWS");
    reveal_strlit("ROW");
    reveal_strlit("CASCADE");
    reveal_strlit("RESTRICT");
    reveal_strlit("TRUE");
    reveal_strlit("FALSE");
    reveal_strlit("NULL");
}

/// Words of statements and of what a query reads, and the tokens that they stand for.
#[verifier::spinoff_prover]
#[verifier::rlimit(50)]
pub proof fn law_statement_words()
    ensures
        keyword_of("EXPLAIN"@) == Some(TokenView::Kind(Kind::Explain)),
        keyword_of("WITH"@) == Some(TokenView::Kind(Kind::With)),
        keyword_of("RECURSIVE"@) == Some(TokenView::Kind(Kind::Recursive)),
        keyword_of("SELECT"@) == Some(TokenView::Kind(Kind::Select)),
        keyword_of("INSERT"@) == Some(TokenView::Kind(Kind::Insert)),
        keyword_of("UPDATE"@) == Some(TokenView::Kind(Kind::Update)),
        keyword_of("DELETE"@) == Some(TokenView::Kind(Kind::Delete)),
        keyword_of("CREATE"@) == Some(TokenView::Kind(Kind::Create)),
        keyword_of("DROP"@) == Some(TokenView::Kind(Kind::Drop)),
        keyword_of("ALTER"@) == Some(TokenView::Kind(Kind::Alter)),
        keyword_of("BEGIN"@) == Some(TokenView::Kind(Kind::Begin)),
        keyword_of("COMMIT"@) == Some(TokenView::Kind(Kind::Commit)),
        keyword_of("ROLLBACK"@) == Some(TokenView::Kind(Kind::Rollback)),
        keyword_of("KV"@) == Some(TokenView::Kind(Kind::Kv)),
        keyword_of("DOC"@) == Some(TokenView::Kind(Kind::Doc)),
{
    lemma_words();
    reveal(keyword_part0);
    assert(keyword_part0("EXPLAIN"@) == Some(TokenView::Kind(Kind::Explain)));
    assert(keyword_part0("WITH"@) == Some(TokenView::Kind(Kind::With)));
    assert(keyword_part0("RECURSIVE"@) == Some(TokenView::Kind(Kind::Recursive)));
    assert(keyword_part0("SELECT"@) == Some(TokenView::Kind(Kind::Select)));
    assert(keyword_part0("INSERT"@) == Some(TokenView::Kind(Kind::Insert)));
    assert(keyword_part0("UPDATE"@) == Some(TokenView::Kind(Kind::Update)));
    assert(keyword_part0("DELETE"@) == Some(TokenView::Kind(Kind::Delete)));
    assert(keyword_part0("CREATE"@) == Some(TokenView::Kind(Kind::Create)));
    assert(keyword_part0("DROP"@) == Some(TokenView::Kind(Kind::Drop)));
    assert(keyword_part0("ALTER"@) == Some(TokenView::Kind(Kind::Alter)));
    assert(keyword_part0("BEGIN"@) == Some(TokenView::Kind(Kind::Begin)));
    assert(keyword_part0("COMMIT"@) == Some(TokenView::Kind(Kind::Commit)));
    assert(keyword_part0("ROLLBACK"@) == Some(TokenView::Kind(Kind::Rollback)));
    assert(keyword_part0("KV"@) == Some(TokenView::Kind(Kind::Kv)));
    assert(keyword_part0("DOC"@) == Some(TokenView::Kind(Kind::Doc)));
}

/// More words of statements and of what a query reads, and the tokens that they stand for.
#[verifier::spinoff_prover]
#[verifier::rlimit(50)]
pub proof fn law_more_statement_words()
    ensures
        keyword_of("SHOW"@) == Some(TokenView::Kind(Kind::Show)),
        keyword_of("TRUNCATE"@) == Some(TokenView::Kind(Kind::Truncate)),
        keyword_of("USE"@) == Some(TokenView::Kind(Kind::Use)),
        keyword_of("DATABASE"@) == Some(TokenView::Kind(Kind::Database)),
        keyword_of("ANALYZE"@) == Some(TokenView::Kind(Kind::Analyze)),
        keyword_of("BACKUP"@) == Some(TokenView::Kind(Kind::Backup)),
        keyword_of("RESTORE"@) == Some(TokenView::Kind(Kind::Restore)),
        keyword_of("MIGRATE"@) == Some(TokenView::Kind(Kind::Migrate)),
        keyword_of("TO"@) == Some(TokenView::Kind(Kind::To)),
        keyword_of("FROM"@) == Some(TokenView::Kind(Kind::From)),
        keyword_of("LSN"@) == Some(TokenView::Kind(Kind::Lsn)),
        keyword_of("AS"@) == Some(TokenView::Kind(Kind::As)),
        keyword_of("DISTINCT"@) == Some(TokenView::Kind(Kind::Distinct)),
        keyword_of("WHERE"@) == Some(TokenView::Kind(Kind::Where)),
        keyword_of("GROUP"@) == Some(TokenView::Kind(Kind::Group)),
{
    lemma_words();
    reveal(keyword_part0);
    assert(keyword_part0("SHOW"@) == Some(TokenView::Kind(Kind::Show)));
    assert(keyword_part0("TRUNCATE"@) == Some(TokenView::Kind(Kind::Truncate)));
    assert(keyword_part0("USE"@) == Some(TokenView::Kind(Kind::Use)));
    assert(keyword_part0("DATABASE"@) == Some(TokenView::Kind(Kind::Database)));
    assert(keyword_part0("ANALYZE"@) == Some(TokenView::Kind(Kind::Analyze)));
    assert(keyword_part0("BACKUP"@) == Some(TokenView::Kind(Kind::Backup)));
    assert(keyword_part0("RESTORE"@) == Some(TokenView::Kind(Kind::Restore)));
    assert(keyword_part0("MIGRATE"@) == Some(TokenView::Kind(Kind::Migrate)));
    assert(keyword_part0("TO"@) == Some(TokenView::Kind(Kind::To)));
    assert(keyword_part0("FROM"@) == Some(TokenView::Kind(Kind::From)));
    assert(keyword_part0("LSN"@) == Some(TokenView::Kind(Kind::Lsn)));
    assert(keyword_part0("AS"@) == Some(TokenView::Kind(Kind::As)));
    assert(keyword_part0("DISTINCT"@) == Some(TokenView::Kind(Kind::Distinct)));
    assert(keyword_part0("WHERE"@) == Some(TokenView::Kind(Kind::Where)));
    assert(keyword_part0("GROUP"@) == Some(TokenView::Kind(Kind::Group)));
}

/// Words of clauses and constraints, and the tokens that they stand for.
#[verifier::spinoff_prover]
#[verifier::rlimit(50)]
pub proof fn law_clause_words()
    ensures
        keyword_of("BY"@) == Some(TokenView::Kind(Kind::By)),
        keyword_of("HAVING"@) == Some(TokenView::Kind(Kind::Having)),
        keyword_of("ORDER"@) == Some(TokenView::Kind(Kind::Order)),
        keyword_of("LIMIT"@) == Some(TokenView::Kind(Kind::Limit)),
        keyword_of("OFFSET"@) == Some(TokenView::Kind(Kind::Offset)),
        keyword_of("JOIN"@) == Some(TokenView::Kind(Kind::Join)),
        keyword_of("INNER"@) == Some(TokenView::Kind(Kind::Inner)),
        keyword_of("LEFT"@) == Some(TokenView::Kind(Kind::Left)),
        keyword_of("RIGHT"@) == Some(TokenView::Kind(Kind::Right)),
        keyword_of("ON"@) == Some(TokenView::Kind(Kind::On)),
        keyword_of("DESC"@) == Some(TokenView::Kind(Kind::Desc)),
        keyword_of("ASC"@) == Some(TokenView::Kind(Kind::Asc)),
        keyword_of("NULLS"@) == Some(TokenView::Kind(Kind::Nulls)),
        keyword_of("FIRST"@) == Some(TokenView::Kind(Kind::First)),
        keyword_of("LAST"@) == Some(TokenView::Kind(Kind::Last)),
{
    lemma_words();
    reveal(keyword_part0);
    reveal(keyword_part1);
    assert(keyword_part0("BY"@) is None);
    assert(keyword_part1("BY"@) == Some(TokenView::Kind(Kind::By)));
    assert(keyword_part0("HAVING"@) is None);
    assert(keyword_part1("HAVING"@) == Some(TokenView::Kind(Kind::Having)));
    assert(keyword_part0("ORDER"@) is None);
    assert(keyword_part1("ORDER"@) == Some(TokenView::Kind(Kind::Order)));
    assert(keyword_part0("LIMIT"@) is None);
    assert(keyword_part1("LIMIT"@) == Some(TokenView::Kind(Kind::Limit)));
    assert(keyword_part0("OFFSET"@) is None);
    assert(keyword_part1("OFFSET"@) == Some(TokenView::Kind(Kind::Offset)));
    assert(keyword_part0("JOIN"@) is None);
    assert(keyword_part1("JOIN"@) == Some(TokenView::Kind(Kind::Join)));
    assert(keyword_part0("INNER"@) is None);
    assert(keyword_part1("INNER"@) == Some(TokenView::Kind(Kind::Inner)));
    assert(keyword_part0("LEFT"@) is None);
    assert(keyword_part1("LEFT"@) == Some(TokenView::Kind(Kind::Left)));
    assert(keyword_part0("RIGHT"@) is None);
    assert(keyword_part1("RIGHT"@) == Some(TokenView::Kind(Kind::Right)));
    assert(keyword_part0("ON"@) is None);
    assert(keyword_part1("ON"@) == Some(TokenView::Kind(Kind::On)));
    assert(keyword_part0("DESC"@) is None);
    assert(keyword_part1("DESC"@) == Some(TokenView::Kind(Kind::Desc)));
    assert(keyword_part0("ASC"@) is None);
    assert(keyword_part1("ASC"@) == Some(TokenView::Kind(Kind::Asc)));
    assert(keyword_part0("NULLS"@) is None);
    assert(keyword_part1("NULLS"@) == Some(TokenView::Kind(Kind::Nulls)));
    assert(keyword_part0("FIRST"@) is None);
    assert(keyword_part1("FIRST"@) == Some(TokenView::Kind(Kind::First)));
    assert(keyword_part0("LAST"@) is None);
    assert(keyword_part1("LAST"@) == Some(TokenView::Kind(Kind::Last)));
}

/// More words of clauses and constraints, and the tokens that they stand for.
#[verifier::spinoff_prover]
#[verifier::rlimit(50)]
pub proof fn law_more_clause_words()
    ensures
        keyword_of("INTO"@) == Some(TokenView::Kind(Kind::Into)),
        keyword_of("VALUES"@) == Some(TokenView::Kind(Kind::Values)),
        keyword_of("CONFLICT"@) == Some(TokenView::Kind(Kind::Conflict)),
        keyword_of("DO"@) == Some(TokenView::Kind(Kind::Do)),
        keyword_of("NOTHING"@) == Some(TokenView::Kind(Kind::Nothing)),
        keyword_of("SET"@) == Some(TokenView::Kind(Kind::SetKw)),
        keyword_of("RETURNING"@) == Some(TokenView::Kind(Kind::Returning)),
        keyword_of("UNIQUE"@) == Some(TokenView::Kind(Kind::Unique)),
        keyword_of("INDEX"@) == Some(TokenView::Kind(Kind::Index)),
        keyword_of("TABLE"@) == Some(TokenView::Kind(Kind::Table)),
        keyword_of("IF"@) == Some(TokenView::Kind(Kind::If)),
        keyword_of("NOT"@) == Some(TokenView::Kind(Kind::Not)),
        keyword_of("EXISTS"@) == Some(TokenView::Kind(Kind::Exists)),
        keyword_of("PRIMARY"@) == Some(TokenView::Kind(Kind::Primary)),
        keyword_of("KEY"@) == Some(TokenView::Kind(Kind::Key)),
{
    lemma_words();
    reveal(keyword_part0);
    reveal(keyword_part1);
    assert(keyword_part0("INTO"@) is None);
    assert(keyword_part1("INTO"@) == Some(TokenView::Kind(Kind::Into)));
    assert(keyword_part0("VALUES"@) is None);
    assert(keyword_part1("VALUES"@) == Some(TokenView::Kind(Kind::Values)));
    assert(keyword_part0("CONFLICT"@) is None);
    assert(keyword_part1("CONFLICT"@) == Some(TokenView::Kind(Kind::Conflict)));
    assert(keyword_part0("DO"@) is None);
    assert(keyword_part1("DO"@) == Some(TokenView::Kind(Kind::Do)));
    assert(keyword_part0("NOTHING"@) is None);
    assert(keyword_part1("NOTHING"@) == Some(TokenView::Kind(Kind::Nothing)));
    assert(keyword_part0("SET"@) is None);
    assert(keyword_part1("SET"@) == Some(TokenView::Kind(Kind::SetKw)));
    assert(keyword_part0("RETURNING"@) is None);
    assert(keyword_part1("RETURNING"@) == Some(TokenView::Kind(Kind::Returning)));
    assert(keyword_part0("UNIQUE"@) is None);
    assert(keyword_part1("UNIQUE"@) == Some(TokenView::Kind(Kind::Unique)));
    assert(keyword_part0("INDEX"@) is None);
    assert(keyword_part1("INDEX"@) == Some(TokenView::Kind(Kind::Index)));
    assert(keyword_part0("TABLE"@) is None);
    assert(keyword_part1("TABLE"@) == Some(TokenView::Kind(Kind::Table)));
    assert(keyword_part0("IF"@) is None);
    assert(keyword_part1("IF"@) == Some(TokenView::Kind(Kind::If)));
    assert(keyword_part0("NOT"@) is None);
    assert(keyword_part1("NOT"@) == Some(TokenView::Kind(Kind::Not)));
    assert(keyword_part0("EXISTS"@) is None);
    assert(keyword_part1("EXISTS"@) == Some(TokenView::Kind(Kind::Exists)));
    assert(keyword_part0("PRIMARY"@) is None);
    assert(keyword_part1("PRIMARY"@) == Some(TokenView::Kind(Kind::Primary)));
    assert(keyword_part0("KEY"@) is None);
    assert(keyword_part1("KEY"@) == Some(TokenView::Kind(Kind::Key)));
}

/// Words of set operations, conditions and windows, and the tokens that they stand for.
#[verifier::spinoff_prover]
#[verifier::rlimit(50)]
pub proof fn law_condition_words()
    ensures
        keyword_of("DEFAULT"@) == Some(TokenView::Kind(Kind::Default)),
        keyword_of("ADD"@) == Some(TokenView::Kind(Kind::Add)),
        keyword_of("COLUMN"@) == Some(TokenView::Kind(Kind::Column)),
        keyword_of("RENAME"@) == Some(TokenView::Kind(Kind::Rename)),
        keyword_of("SERIALIZABLE"@) == Some(TokenView::Kind(Kind::Serializable)),
        keyword_of("UNION"@) == Some(TokenView::Kind(Kind::Union)),
        keyword_of("ALL"@) == Some(TokenView::Kind(Kind::All)),
        keyword_of("INTERSECT"@) == Some(TokenView::Kind(Kind::Intersect)),
        keyword_of("EXCEPT"@) == Some(TokenView::Kind(Kind::Except)),
        keyword_of("TABLES"@) == Some(TokenView::Kind(Kind::Tables)),
        keyword_of("COLUMNS"@) == Some(TokenView::Kind(Kind::Columns)),
        keyword_of("GET"@) == Some(TokenView::Kind(Kind::Get)),
        keyword_of("SCAN"@) == Some(TokenView::Kind(Kind::Scan)),
        keyword_of("FIND"@) == Some(TokenView::Kind(Kind::Find)),
        keyword_of("IN"@) == Some(TokenView::Kind(Kind::In)),
{
    lemma_words();
    reveal(keyword_part0);
    reveal(keyword_part1);
    reveal(keyword_part2);
    assert(keyword_part0("DEFAULT"@) is None);
    assert(keyword_part1("DEFAULT"@) is None);
    assert(keyword_part2("DEFAULT"@) == Some(TokenView::Kind(Kind::Default)));
    assert(keyword_part0("ADD"@) is None);
    assert(keyword_part1("ADD"@) is None);
    assert(keyword_part2("ADD"@) == Some(TokenView::Kind(Kind::Add)));
    assert(keyword_part0("COLUMN"@) is None);
    assert(keyword_part1("COLUMN"@) is None);
    assert(keyword_part2("COLUMN"@) == Some(TokenView::Kind(Kind::Column)));
    assert(keyword_part0("RENAME"@) is None);
    assert(keyword_part1("RENAME"@) is None);
    assert(keyword_part2("RENAME"@) == Some(TokenView::Kind(Kind::Rename)));
    assert(keyword_part0("SERIALIZABLE"@) is None);
    assert(keyword_part1("SERIALIZABLE"@) is None);
    assert(keyword_part2("SERIALIZABLE"@) == Some(TokenView::Kind(Kind::Serializable)));
    assert(keyword_part0("UNION"@) is None);
    assert(keyword_part1("UNION"@) is None);
    assert(keyword_part2("UNION"@) == Some(TokenView::Kind(Kind::Union)));
    assert(keyword_part0("ALL"@) is None);
    assert(keyword_part1("ALL"@) is None);
    assert(keyword_part2("ALL"@) == Some(TokenView::Kind(Kind::All)));
    assert(keyword_part0("INTERSECT"@) is None);
    assert(keyword_part1("INTERSECT"@) is None);
    assert(keyword_part2("INTERSECT"@) == Some(TokenView::Kind(Kind::Intersect)));
    assert(keyword_part0("EXCEPT"@) is None);
    assert(keyword_part1("EXCEPT"@) is None);
    assert(keyword_part2("EXCEPT"@) == Some(TokenView::Kind(Kind::Except)));
    assert(keyword_part0("TABLES"@) is None);
    assert(keyword_part1("TABLES"@) is None);
    assert(keyword_part2("TABLES"@) == Some(TokenView::Kind(Kind::Tables)));
    assert(keyword_part0("COLUMNS"@) is None);
    assert(keyword_part1("COLUMNS"@) is None);
    assert(keyword_part2("COLUMNS"@) == Some(TokenView::Kind(Kind::Columns)));
    assert(keyword_part0("GET"@) is None);
    assert(keyword_part1("GET"@) is None);
    assert(keyword_part2("GET"@) == Some(TokenView::Kind(Kind::Get)));
    assert(keyword_part0("SCAN"@) is None);
    assert(keyword_part1("SCAN"@) is None);
    assert(keyword_part2("SCAN"@) == Some(TokenView::Kind(Kind::Scan)));
    assert(keyword_part0("FIND"@) is None);
    assert(keyword_part1("FIND"@) is None);
    assert(keyword_part2("FIND"@) == Some(TokenView::Kind(Kind::Find)));
    assert(keyword_part0("IN"@) is None);
    assert(keyword_part1("IN"@) is None);
    assert(keyword_part2("IN"@) == Some(TokenView::Kind(Kind::In)));
}

/// More words of set operations, conditions and windows, and the tokens that they stand for.
#[verifier::spinoff_prover]
#[verifier::rlimit(50)]
pub proof fn law_more_condition_words()
    ensures
        keyword_of("OR"@) == Some(TokenView::Kind(Kind::Or)),
        keyword_of("AND"@) == Some(TokenView::Kind(Kind::And)),
        keyword_of("LIKE"@) == Some(TokenView::Kind(Kind::Like)),
        keyword_of("ILIKE"@) == Some(TokenView::Kind(Kind::Ilike)),
        keyword_of("IS"@) == Some(TokenView::Kind(Kind::Is)),
        keyword_of("BETWEEN"@) == Some(TokenView::Kind(Kind::Between)),
        keyword_of("CASE"@) == Some(TokenView::Kind(Kind::Case)),
        keyword_of("WHEN"@) == Some(TokenView::Kind(Kind::When)),
        keyword_of("THEN"@) == Some(TokenView::Kind(Kind::Then)),
        keyword_of("ELSE"@) == Some(TokenView::Kind(Kind::Else)),
        keyword_of("END"@) == Some(TokenView::Kind(Kind::End)),
        keyword_of("CAST"@) == Some(TokenView::Kind(Kind::Cast)),
        keyword_of("OVER"@) == Some(TokenView::Kind(Kind::Over)),
        keyword_of("PARTITION"@) == Some(TokenView::Kind(Kind::Partition)),
        keyword_of("INTERVAL"@) == Some(TokenView::Kind(Kind::Interval)),
{
    lemma_words();
    reveal(keyword_part0);
    reveal(keyword_part1);
    reveal(keyword_part2);
    assert(keyword_part0("OR"@) is None);
    assert(keyword_part1("OR"@) is None);
    assert(keyword_part2("OR"@) == Some(TokenView::Kind(Kind::Or)));
    assert(keyword_part0("AND"@) is None);
    assert(keyword_part1("AND"@) is None);
    assert(keyword_part2("AND"@) == Some(TokenView::Kind(Kind::And)));
    assert(keyword_part0("LIKE"@) is None);
    assert(keyword_part1("LIKE"@) is None);
    assert(keyword_part2("LIKE"@) == Some(TokenView::Kind(Kind::Like)));
    assert(keyword_part0("ILIKE"@) is None);
    assert(keyword_part1("ILIKE"@) is None);
    assert(keyword_part2("ILIKE"@) == Some(TokenView::Kind(Kind::Ilike)));
    assert(keyword_part0("IS"@) is None);
    assert(keyword_part1("IS"@) is None);
    assert(keyword_part2("IS"@) == Some(TokenView::Kind(Kind::Is)));
    assert(keyword_part0("BETWEEN"@) is None);
    assert(keyword_part1("BETWEEN"@) is None);
    assert(keyword_part2("BETWEEN"@) == Some(TokenView::Kind(Kind::Between)));
    assert(keyword_part0("CASE"@) is None);
    assert(keyword_part1("CASE"@) is None);
    assert(keyword_part2("CASE"@) == Some(TokenView::Kind(Kind::Case)));
    assert(keyword_part0("WHEN"@) is None);
    assert(keyword_part1("WHEN"@) is None);
    assert(keyword_part2("WHEN"@) == Some(TokenView::Kind(Kind::When)));
    assert(keyword_part0("THEN"@) is None);
    assert(keyword_part1("THEN"@) is None);
    assert(keyword_part2("THEN"@) == Some(TokenView::Kind(Kind::Then)));
    assert(keyword_part0("ELSE"@) is None);
    assert(keyword_part1("ELSE"@) is None);
    assert(keyword_part2("ELSE"@) == Some(TokenView::Kind(Kind::Else)));
    assert(keyword_part0("END"@) is None);
    assert(keyword_part1("END"@) is None);
    assert(keyword_part2("END"@) == Some(TokenView::Kind(Kind::End)));
    assert(keyword_part0("CAST"@) is None);
    assert(keyword_part1("CAST"@) is None);
    assert(keyword_part2("CAST"@) == Some(TokenView::Kind(Kind::Cast)));
    assert(keyword_part0("OVER"@) is None);
    assert(keyword_part1("OVER"@) is None);
    assert(keyword_part2("OVER"@) == Some(TokenView::Kind(Kind::Over)));
    assert(keyword_part0("PARTITION"@) is None);
    assert(keyword_part1("PARTITION"@) is None);
    assert(keyword_part2("PARTITION"@) == Some(TokenView::Kind(Kind::Partition)));
    assert(keyword_part0("INTERVAL"@) is None);
    assert(keyword_part1("INTERVAL"@) is None);
    assert(keyword_part2("INTERVAL"@) == Some(TokenView::Kind(Kind::Interval)));
}

/// Words of types, actions and constants, and the tokens that they stand for.
#[verifier::spinoff_prover]
#[verifier::rlimit(50)]
pub proof fn law_type_words()
    ensures
        keyword_of("INT"@) == Some(TokenView::Kind(Kind::Int)),
        keyword_of("INTEGER"@) == Some(TokenView::Kind(Kind::Integer)),
        keyword_of("BIGINT"@) == Some(TokenView::Kind(Kind::Bigint)),
        keyword_of("SMALLINT"@) == Some(TokenView::Kind(Kind::Smallint)),
        keyword_of("SERIAL"@) == Some(TokenView::Kind(Kind::Serial)),
        keyword_of("FLOAT"@) == Some(TokenView::Kind(Kind::Float)),
        keyword_of("REAL"@) == Some(TokenView::Kind(Kind::Real)),
        keyword_of("DOUBLE"@) == Some(TokenView::Kind(Kind::DoublePrecision)),
        keyword_of("NUMERIC"@) == Some(TokenView::Kind(Kind::Numeric)),
        keyword_of("DECIMAL"@) == Some(TokenView::Kind(Kind::Numeric)),
        keyword_of("TEXT"@) == Some(TokenView::Kind(Kind::Text)),
        keyword_of("VARCHAR"@) == Some(TokenView::Kind(Kind::Varchar)),
        keyword_of("BOOL"@) == Some(TokenView::Kind(Kind::Bool)),
        keyword_of("BOOLEAN"@) == Some(TokenView::Kind(Kind::Bool)),
{
    lemma_words();
    reveal(keyword_part0);
    reveal(keyword_part1);
    reveal(keyword_part2);
    reveal(keyword_part3);
    assert(keyword_part0("INT"@) is None);
    assert(keyword_part1("INT"@) is None);
    assert(keyword_part2("INT"@) is None);
    assert(keyword_part3("INT"@) == Some(TokenView::Kind(Kind::Int)));
    assert(keyword_part0("INTEGER"@) is None);
    assert(keyword_part1("INTEGER"@) is None);
    assert(keyword_part2("INTEGER"@) is None);
    assert(keyword_part3("INTEGER"@) == Some(TokenView::Kind(Kind::Integer)));
    assert(keyword_part0("BIGINT"@) is None);
    assert(keyword_part1("BIGINT"@) is None);
    assert(keyword_part2("BIGINT"@) is None);
    assert(keyword_part3("BIGINT"@) == Some(TokenView::Kind(Kind::Bigint)));
    assert(keyword_part0("SMALLINT"@) is None);
    assert(keyword_part1("SMALLINT"@) is None);
    assert(keyword_part2("SMALLINT"@) is None);
    assert(keyword_part3("SMALLINT"@) == Some(TokenView::Kind(Kind::Smallint)));
    assert(keyword_part0("SERIAL"@) is None);
    assert(keyword_part1("SERIAL"@) is None);
    assert(keyword_part2("SERIAL"@) is None);
    assert(keyword_part3("SERIAL"@) == Some(TokenView::Kind(Kind::Serial)));
    assert(keyword_part0("FLOAT"@) is None);
    assert(keyword_part1("FLOAT"@) is None);
    assert(keyword_part2("FLOAT"@) is None);
    assert(keyword_part3("FLOAT"@) == Some(TokenView::Kind(Kind::Float)));
    assert(keyword_part0("REAL"@) is None);
    assert(keyword_part1("REAL"@) is None);
    assert(keyword_part2("REAL"@) is None);
    assert(keyword_part3("REAL"@) == Some(TokenView::Kind(Kind::Real)));
    assert(keyword_part0("DOUBLE"@) is None);
    assert(keyword_part1("DOUBLE"@) is None);
    assert(keyword_part2("DOUBLE"@) is None);
    assert(keyword_part3("DOUBLE"@) == Some(TokenView::Kind(Kind::DoublePrecision)));
    assert(keyword_part0("NUMERIC"@) is None);
    assert(keyword_part1("NUMERIC"@) is None);
    assert(keyword_part2("NUMERIC"@) is None);
    assert(keyword_part3("NUMERIC"@) == Some(TokenView::Kind(Kind::Numeric)));
    assert(keyword_part0("DECIMAL"@) is None);
    assert(keyword_part1("DECIMAL"@) is None);
    assert(keyword_part2("DECIMAL"@) is None);
    assert(keyword_part3("DECIMAL"@) == Some(TokenView::Kind(Kind::Numeric)));
    assert(keyword_part0("TEXT"@) is None);
    assert(keyword_part1("TEXT"@) is None);
    assert(keyword_part2("TEXT"@) is None);
    assert(keyword_part3("TEXT"@) == Some(TokenView::Kind(Kind::Text)));
    assert(keyword_part0("VARCHAR"@) is None);
    assert(keyword_part1("VARCHAR"@) is None);
    assert(keyword_part2("VARCHAR"@) is None);
    assert(keyword_part3("VARCHAR"@) == Some(TokenView::Kind(Kind::Varchar)));
    assert(keyword_part0("BOOL"@) is None);
    assert(keyword_part1("BOOL"@) is None);
    assert(keyword_part2("BOOL"@) is None);
    assert(keyword_part3("BOOL"@) == Some(TokenView::Kind(Kind::Bool)));
    assert(keyword_part0("BOOLEAN"@) is None);
    assert(keyword_part1("BOOLEAN"@) is None);
    assert(keyword_part2("BOOLEAN"@) is None);
    assert(keyword_part3("BOOLEAN"@) == Some(TokenView::Kind(Kind::Bool)));
}

/// More words of types, actions and constants, and the tokens that they stand for.
#[verifier::spinoff_prover]
#[verifier::rlimit(50)]
pub proof fn law_more_type_words()
    ensures
        keyword_of("BYTES"@) == Some(TokenView::Kind(Kind::Bytes)),
        keyword_of("BLOB"@) == Some(TokenView::Kind(Kind::Blob)),
        keyword_of("JSON"@) == Some(TokenView::Kind(Kind::Json)),
        keyword_of("TIMESTAMP"@) == Some(TokenView::Kind(Kind::Timestamp)),
        keyword_of("DATE"@) == Some(TokenView::Kind(Kind::Date)),
        keyword_of("UUID"@) == Some(TokenView::Kind(Kind::Uuid)),
        keyword_of("ROWS"@) == Some(TokenView::Kind(Kind::Rows)),
        keyword_of("ROW"@) == Some(TokenView::Kind(Kind::Row)),
        keyword_of("CASCADE"@) == Some(TokenView::Kind(Kind::Cascade)),
        keyword_of("RESTRICT"@) == Some(TokenView::Kind(Kind::Restrict)),
        keyword_of("TRUE"@) == Some(TokenView::BoolLit(true)),
        keyword_of("FALSE"@) == Some(TokenView::BoolLit(false)),
        keyword_of("NULL"@) == Some(TokenView::Kind(Kind::NullLit)),
{
    lemma_words();
    reveal(keyword_part0);
    reveal(keyword_part1);
    reveal(keyword_part2);
    reveal(keyword_part3);
    assert(keyword_part0("BYTES"@) is None);
    assert(keyword_part1("BYTES"@) is None);
    assert(keyword_part2("BYTES"@) is None);
    assert(keyword_part3("BYTES"@) == Some(TokenView::Kind(Kind::Bytes)));
    assert(keyword_part0("BLOB"@) is None);
    assert(keyword_part1("BLOB"@) is None);
    assert(keyword_part2("BLOB"@) is None);
    assert(keyword_part3("BLOB"@) == Some(TokenView::Kind(Kind::Blob)));
    assert(keyword_part0("JSON"@) is None);
    assert(keyword_part1("JSON"@) is None);
    assert(keyword_part2("JSON"@) is None);
    assert(keyword_part3("JSON"@) == Some(TokenView::Kind(Kind::Json)));
    assert(keyword_part0("TIMESTAMP"@) is None);
    assert(keyword_part1("TIMESTAMP"@) is None);
    assert(keyword_part2("TIMESTAMP"@) is None);
    assert(keyword_part3("TIMESTAMP"@) == Some(TokenView::Kind(Kind::Timestamp)));
    assert(keyword_part0("DATE"@) is None);
    assert(keyword_part1("DATE"@) is None);
    assert(keyword_part2("DATE"@) is None);
    assert(keyword_part3("DATE"@) == Some(TokenView::Kind(Kind::Date)));
    assert(keyword_part0("UUID"@) is None);
    assert(keyword_part1("UUID"@) is None);
    assert(keyword_part2("UUID"@) is None);
    assert(keyword_part3("UUID"@) == Some(TokenView::Kind(Kind::Uuid)));
    assert(keyword_part0("ROWS"@) is None);
    assert(keyword_part1("ROWS"@) is None);
    assert(keyword_part2("ROWS"@) is None);
    assert(keyword_part3("ROWS"@) == Some(TokenView::Kind(Kind::Rows)));
    assert(keyword_part0("ROW"@) is None);
    assert(keyword_part1("ROW"@) is None);
    assert(keyword_part2("ROW"@) is None);
    assert(keyword_part3("ROW"@) == Some(TokenView::Kind(Kind::Row)));
    assert(keyword_part0("CASCADE"@) is None);
    assert(keyword_part1("CASCADE"@) is None);
    assert(keyword_part2("CASCADE"@) is None);
    assert(keyword_part3("CASCADE"@) == Some(TokenView::Kind(Kind::Cascade)));
    assert(keyword_part0("RESTRICT"@) is None);
    assert(keyword_part1("RESTRICT"@) is None);
    assert(keyword_part2("RESTRICT"@) is None);
    assert(keyword_part3("RESTRICT"@) == Some(TokenView::Kind(Kind::Restrict)));
    assert(keyword_part0("TRUE"@) is None);
    assert(keyword_part1("TRUE"@) is None);
    assert(keyword_part2("TRUE"@) is None);
    assert(keyword_part3("TRUE"@) == Some(TokenView::BoolLit(true)));
    assert(keyword_part0("FALSE"@) is None);
    assert(keyword_part1("FALSE"@) is None);
    assert(keyword_part2("FALSE"@) is None);
    assert(keyword_part3("FALSE"@) == Some(TokenView::BoolLit(false)));
    assert(keyword_part0("NULL"@) is None);
    assert(keyword_part1("NULL"@) is None);
    assert(keyword_part2("NULL"@) is None);
    assert(keyword_part3("NULL"@) == Some(TokenView::Kind(Kind::NullLit)));
}

} // verus!
